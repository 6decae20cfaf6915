use rlox::error::LoxErrorKind;
use rlox::number::{FloatUnit, NumberOp};
use rlox::scan::{alphabetic, alphanumeric, characters, digit, kind_of_word, spells, text_between, Scanner};
use rlox::tokens::{LiteralValue, Token, TokenType};

fn scanner_unit() -> FloatUnit<
    impl Fn(String) -> Option<u64>,
    impl Fn(NumberOp, u64, u64) -> u64,
    impl Fn(u64) -> String,
> {
    FloatUnit {
        parse: |text: String| text.parse::<f64>().ok().map(f64::to_bits),
        combine: |_op: NumberOp, left: u64, _right: u64| left,
        render: |number: u64| format!("{}", f64::from_bits(number)),
    }
}

fn scan(source: &str) -> Vec<Token> {
    let mut scanner = Scanner::new();
    scanner.scan(&source.to_string(), &scanner_unit()).expect("scan error");
    scanner.tokens
}

fn kinds(source: &str) -> Vec<TokenType> {
    scan(source).iter().map(|token| token.token_type).collect()
}

fn lexemes(source: &str) -> Vec<String> {
    scan(source).iter().map(|token| token.lexeme.clone()).collect()
}

fn number_of(token: &Token) -> f64 {
    match &token.literal {
        Some(LiteralValue::NumberValue(bits)) => f64::from_bits(*bits),
        other => panic!("no number: {:?}", other),
    }
}

#[test]
fn empty_source_is_one_eof() {
    let tokens = scan("");
    assert_eq!(tokens.len(), 1);
    assert_eq!(tokens[0].token_type, TokenType::EOF);
    assert_eq!(tokens[0].lexeme, "");
    assert_eq!(tokens[0].line, 1);
    assert_eq!(tokens[0].id, 0);
    assert!(tokens[0].literal.is_none());
}

#[test]
fn tokens_end_with_exactly_one_eof() {
    for source in ["print 1;", "var a = \"x\"; // note", "a\nb\nc", "   ", "(((", "class A < B {}"] {
        let found = kinds(source);
        assert_eq!(found.last(), Some(&TokenType::EOF));
        assert_eq!(found.iter().filter(|kind| **kind == TokenType::EOF).count(), 1);
    }
}

#[test]
fn punctuation_and_one_character_operators() {
    assert_eq!(
        kinds("(){},.-+;*/"),
        vec![
            TokenType::LeftParen,
            TokenType::RightParen,
            TokenType::LeftBrace,
            TokenType::RightBrace,
            TokenType::Comma,
            TokenType::Dot,
            TokenType::Minus,
            TokenType::Plus,
            TokenType::Semicolon,
            TokenType::Star,
            TokenType::Slash,
            TokenType::EOF,
        ]
    );
}

#[test]
fn one_or_two_character_operators() {
    assert_eq!(
        kinds("! != = == < <= > >="),
        vec![
            TokenType::Bang,
            TokenType::BangEqual,
            TokenType::Equal,
            TokenType::EqualEqual,
            TokenType::Less,
            TokenType::LessEqual,
            TokenType::Greater,
            TokenType::GreaterEqual,
            TokenType::EOF,
        ]
    );
    assert_eq!(lexemes("!= >="), vec!["!=", ">=", ""]);
    assert_eq!(
        kinds("==="),
        vec![TokenType::EqualEqual, TokenType::Equal, TokenType::EOF]
    );
    assert_eq!(kinds("!"), vec![TokenType::Bang, TokenType::EOF]);
}

#[test]
fn comments_run_to_the_end_of_the_line() {
    assert_eq!(
        kinds("1 // two three\n4"),
        vec![TokenType::Number, TokenType::Number, TokenType::EOF]
    );
    let tokens = scan("1 // two three\n4");
    assert_eq!(tokens[1].line, 2);
    assert_eq!(kinds("// only a comment"), vec![TokenType::EOF]);
    assert_eq!(kinds("//"), vec![TokenType::EOF]);
    assert_eq!(kinds("a / b"), vec![TokenType::Identifier, TokenType::Slash, TokenType::Identifier, TokenType::EOF]);
}

#[test]
fn white_space_is_skipped_and_lines_are_counted() {
    let tokens = scan("a \t\r\n b\n\n c");
    assert_eq!(tokens.len(), 4);
    assert_eq!(tokens[0].line, 1);
    assert_eq!(tokens[1].line, 2);
    assert_eq!(tokens[2].line, 4);
    assert_eq!(tokens[3].line, 4);
}

#[test]
fn string_literals() {
    let tokens = scan("\"hello\" \"\"");
    assert_eq!(tokens[0].token_type, TokenType::String);
    assert_eq!(tokens[0].lexeme, "\"hello\"");
    match &tokens[0].literal {
        Some(LiteralValue::StringValue(text)) => assert_eq!(text, "hello"),
        other => panic!("no string: {:?}", other),
    }
    assert_eq!(tokens[1].lexeme, "\"\"");
    match &tokens[1].literal {
        Some(LiteralValue::StringValue(text)) => assert_eq!(text, ""),
        other => panic!("no string: {:?}", other),
    }
}

#[test]
fn strings_may_span_lines() {
    let tokens = scan("\"a\nb\nc\" x");
    assert_eq!(tokens[0].token_type, TokenType::String);
    assert_eq!(tokens[0].line, 3);
    assert_eq!(tokens[1].line, 3);
    match &tokens[0].literal {
        Some(LiteralValue::StringValue(text)) => assert_eq!(text, "a\nb\nc"),
        other => panic!("no string: {:?}", other),
    }
}

#[test]
fn strings_keep_characters_outside_ascii() {
    let tokens = scan("\"héllo → ok\" x");
    assert_eq!(tokens[0].lexeme, "\"héllo → ok\"");
    match &tokens[0].literal {
        Some(LiteralValue::StringValue(text)) => assert_eq!(text, "héllo → ok"),
        other => panic!("no string: {:?}", other),
    }
    assert_eq!(tokens[1].lexeme, "x");
}

#[test]
fn unterminated_string_is_a_scanner_error() {
    let mut scanner = Scanner::new();
    let error = scanner.scan(&"var a = \"abc".to_string(), &scanner_unit()).unwrap_err();
    assert_eq!(error.kind, LoxErrorKind::ScannerError);
    assert_eq!(error.message, "unterminated string");
    assert_eq!(scanner.tokens.len(), 3);
}

#[test]
fn unexpected_character_is_a_scanner_error() {
    for source in ["@", "a # b", "_x", "é", "1 ? 2"] {
        let mut scanner = Scanner::new();
        let error = scanner.scan(&source.to_string(), &scanner_unit()).unwrap_err();
        assert_eq!(error.kind, LoxErrorKind::ScannerError);
        assert_eq!(error.message, "unexpected character");
    }
}

#[test]
fn numbers() {
    let tokens = scan("0 12 3.5 0.25 100.001");
    let values: Vec<f64> = tokens[..5].iter().map(number_of).collect();
    assert_eq!(values, vec![0.0, 12.0, 3.5, 0.25, 100.001]);
    assert_eq!(lexemes("12 3.5"), vec!["12", "3.5", ""]);
}

#[test]
fn a_dot_belongs_to_a_number_only_before_a_digit() {
    assert_eq!(kinds("1."), vec![TokenType::Number, TokenType::Dot, TokenType::EOF]);
    assert_eq!(kinds("1.a"), vec![TokenType::Number, TokenType::Dot, TokenType::Identifier, TokenType::EOF]);
    assert_eq!(kinds(".5"), vec![TokenType::Dot, TokenType::Number, TokenType::EOF]);
    assert_eq!(
        kinds("1.2.3"),
        vec![TokenType::Number, TokenType::Dot, TokenType::Number, TokenType::EOF]
    );
    assert_eq!(lexemes("1.2.3"), vec!["1.2", ".", "3", ""]);
}

#[test]
fn a_numeral_that_the_unit_cannot_read_is_a_scanner_error() {
    let unit = FloatUnit {
        parse: |_text: String| None,
        combine: |_op: NumberOp, left: u64, _right: u64| left,
        render: |_number: u64| String::new(),
    };
    let mut scanner = Scanner::new();
    let error = scanner.scan(&"x 12".to_string(), &unit).unwrap_err();
    assert_eq!(error.kind, LoxErrorKind::ScannerError);
    assert_eq!(error.message, "unable to parse float");
}

#[test]
fn the_unit_is_asked_for_the_whole_numeral() {
    let unit = FloatUnit {
        parse: |text: String| Some(text.len() as u64),
        combine: |_op: NumberOp, left: u64, _right: u64| left,
        render: |_number: u64| String::new(),
    };
    let mut scanner = Scanner::new();
    scanner.scan(&"123.4567 8".to_string(), &unit).unwrap();
    match &scanner.tokens[0].literal {
        Some(LiteralValue::NumberValue(bits)) => assert_eq!(*bits, 8),
        other => panic!("no number: {:?}", other),
    }
    match &scanner.tokens[1].literal {
        Some(LiteralValue::NumberValue(bits)) => assert_eq!(*bits, 1),
        other => panic!("no number: {:?}", other),
    }
}

#[test]
fn keywords() {
    assert_eq!(
        kinds("and class else false for fun if nil or print return super this true var while"),
        vec![
            TokenType::And,
            TokenType::Class,
            TokenType::Else,
            TokenType::False,
            TokenType::For,
            TokenType::Fun,
            TokenType::If,
            TokenType::Nil,
            TokenType::Or,
            TokenType::Print,
            TokenType::Return,
            TokenType::Super,
            TokenType::This,
            TokenType::True,
            TokenType::Var,
            TokenType::While,
            TokenType::EOF,
        ]
    );
}

#[test]
fn identifiers() {
    assert_eq!(
        kinds("andy classes x1 Print iff"),
        vec![
            TokenType::Identifier,
            TokenType::Identifier,
            TokenType::Identifier,
            TokenType::Identifier,
            TokenType::Identifier,
            TokenType::EOF,
        ]
    );
    assert_eq!(lexemes("abc123 d"), vec!["abc123", "d", ""]);
    assert_eq!(kinds("1abc"), vec![TokenType::Number, TokenType::Identifier, TokenType::EOF]);
}

#[test]
fn true_false_and_nil_carry_their_value() {
    let tokens = scan("true false nil x");
    assert!(matches!(tokens[0].literal, Some(LiteralValue::BooleanValue(true))));
    assert!(matches!(tokens[1].literal, Some(LiteralValue::BooleanValue(false))));
    assert!(matches!(tokens[2].literal, Some(LiteralValue::NilValue)));
    assert!(tokens[3].literal.is_none());
}

#[test]
fn ids_count_up_and_are_never_reset() {
    let mut scanner = Scanner::new();
    scanner.scan(&"a b c".to_string(), &scanner_unit()).unwrap();
    let first: Vec<u32> = scanner.tokens.iter().map(|token| token.id).collect();
    assert_eq!(first, vec![0, 1, 2, 3]);
    scanner.scan(&"d e".to_string(), &scanner_unit()).unwrap();
    let second: Vec<u32> = scanner.tokens.iter().map(|token| token.id).collect();
    assert_eq!(second, vec![4, 5, 6]);
    assert_eq!(scanner.tokens[0].line, 1);
    assert_eq!(scanner.next_id, 7);
}

#[test]
fn ids_go_on_after_a_failed_scan() {
    let mut scanner = Scanner::new();
    assert!(scanner.scan(&"a b @".to_string(), &scanner_unit()).is_err());
    assert_eq!(scanner.next_id, 2);
    scanner.scan(&"c".to_string(), &scanner_unit()).unwrap();
    assert_eq!(scanner.tokens[0].id, 2);
    assert_eq!(scanner.tokens[1].id, 3);
}

#[test]
fn a_new_scan_replaces_the_tokens() {
    let mut scanner = Scanner::new();
    scanner.scan(&"a\nb\nc".to_string(), &scanner_unit()).unwrap();
    scanner.scan(&"x".to_string(), &scanner_unit()).unwrap();
    assert_eq!(scanner.tokens.len(), 2);
    assert_eq!(scanner.tokens[0].lexeme, "x");
    assert_eq!(scanner.tokens[0].line, 1);
}

#[test]
fn character_classes() {
    assert!(digit('0') && digit('9') && !digit('a') && !digit('/') && !digit(':'));
    assert!(alphabetic('a') && alphabetic('z') && alphabetic('A') && alphabetic('Z'));
    assert!(!alphabetic('_') && !alphabetic('1') && !alphabetic('é') && !alphabetic('[') && !alphabetic('`'));
    assert!(alphanumeric('a') && alphanumeric('5') && !alphanumeric(' '));
}

#[test]
fn text_helpers() {
    let chars = characters("héllo");
    assert_eq!(chars, vec!['h', 'é', 'l', 'l', 'o']);
    assert_eq!(text_between(&chars, 1, 4), "éll");
    assert_eq!(text_between(&chars, 2, 2), "");
    assert!(spells(&"while".to_string(), "while"));
    assert!(!spells(&"whil".to_string(), "while"));
    assert_eq!(kind_of_word(&"super".to_string()), TokenType::Super);
    assert_eq!(kind_of_word(&"Super".to_string()), TokenType::Identifier);
}
