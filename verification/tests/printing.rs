use rlox::ast::Statement;
use rlox::number::{FloatUnit, NumberOp};
use rlox::parse::Parser;
use rlox::printing::{marked, write_expression, write_program, write_statement};
use rlox::scan::Scanner;
use rlox::tokens::{LiteralValue, Token, TokenType};

fn printing_unit() -> FloatUnit<
    impl Fn(String) -> Option<u64>,
    impl Fn(NumberOp, u64, u64) -> u64,
    impl Fn(u64) -> String,
> {
    FloatUnit {
        parse: |text: String| text.parse::<f64>().ok().map(f64::to_bits),
        combine: |_op: NumberOp, left: u64, _right: u64| left,
        render: |number: u64| format!("{}", f64::from_bits(number)),
    }
}

fn scanned(source: &str) -> Vec<Token> {
    let mut scanner = Scanner::new();
    scanner.scan(&source.to_string(), &printing_unit()).expect("scan error");
    scanner.tokens
}

fn parsed(tokens: &Vec<Token>) -> Vec<Statement> {
    let mut parser = Parser::new();
    parser.parse(tokens).expect("parse errors")
}

fn structural(kind: TokenType) -> bool {
    matches!(
        kind,
        TokenType::LeftParen
            | TokenType::RightParen
            | TokenType::LeftBrace
            | TokenType::RightBrace
            | TokenType::Comma
            | TokenType::Dot
            | TokenType::Semicolon
            | TokenType::Equal
            | TokenType::Less
            | TokenType::Var
            | TokenType::Fun
            | TokenType::Class
            | TokenType::If
            | TokenType::Else
            | TokenType::While
    )
}

/// The tokens with every structural token replaced by the mark of its kind.
fn plain(tokens: Vec<Token>) -> Vec<Token> {
    tokens
        .into_iter()
        .map(|token| if structural(token.token_type) { marked(token.token_type) } else { token })
        .collect()
}

fn same_literal(a: &Option<LiteralValue>, b: &Option<LiteralValue>) -> bool {
    match (a, b) {
        (None, None) => true,
        (Some(LiteralValue::NumberValue(x)), Some(LiteralValue::NumberValue(y))) => x == y,
        (Some(LiteralValue::StringValue(x)), Some(LiteralValue::StringValue(y))) => x == y,
        (Some(LiteralValue::BooleanValue(x)), Some(LiteralValue::BooleanValue(y))) => x == y,
        (Some(LiteralValue::NilValue), Some(LiteralValue::NilValue)) => true,
        _ => false,
    }
}

fn same_token(a: &Token, b: &Token) -> bool {
    a.token_type == b.token_type
        && a.lexeme == b.lexeme
        && same_literal(&a.literal, &b.literal)
        && a.line == b.line
        && a.id == b.id
}

fn same_tokens(a: &[Token], b: &[Token]) -> bool {
    a.len() == b.len() && a.iter().zip(b.iter()).all(|(x, y)| same_token(x, y))
}

fn text_of(tokens: &[Token]) -> String {
    let lexemes: Vec<&str> = tokens.iter().map(|token| token.lexeme.as_str()).collect();
    lexemes.join(" ")
}

const PROGRAMS: [&str; 8] = [
    "print 1 + 2 * 3;",
    "var a = (1 + 2) * -3; var b; a = b = !a;",
    "fun f(a, b) { if (a < b) return a; else return b; }",
    "class A { init(x) { this.x = x; } get() { return this.x; } }",
    "class B < A { init(x) { super.init(x); this.y = x; } m() { return this.y or nil and true; } }",
    "{ var a = f(1)(2, 3).g; while (!a) { a = a.next; } {} }",
    "x.y.z = a == b != c; f(); f(g(h(1)), \"two\", nil).k = 2.5;",
    "if (a) if (b) print 1; else print 2; return;",
];

#[test]
fn marks_are_spelled_as_their_kind() {
    let spellings = [
        (TokenType::LeftParen, "("),
        (TokenType::RightParen, ")"),
        (TokenType::LeftBrace, "{"),
        (TokenType::RightBrace, "}"),
        (TokenType::Comma, ","),
        (TokenType::Dot, "."),
        (TokenType::Semicolon, ";"),
        (TokenType::Equal, "="),
        (TokenType::Less, "<"),
        (TokenType::Var, "var"),
        (TokenType::Fun, "fun"),
        (TokenType::Class, "class"),
        (TokenType::If, "if"),
        (TokenType::Else, "else"),
        (TokenType::While, "while"),
    ];
    for (kind, spelling) in spellings {
        let token = marked(kind);
        assert_eq!(token.token_type, kind);
        assert_eq!(token.lexeme, spelling);
        assert!(token.literal.is_none());
        assert_eq!((token.line, token.id), (0, 0));
    }
}

#[test]
fn printing_plain_tokens_gives_them_back() {
    for source in PROGRAMS {
        let tokens = plain(scanned(source));
        let statements = parsed(&tokens);
        let printed = write_program(&statements);
        assert!(same_tokens(&printed, &tokens[..tokens.len() - 1]), "{}", source);
    }
}

#[test]
fn printing_gives_back_the_text() {
    for source in PROGRAMS {
        let tokens = scanned(source);
        let statements = parsed(&tokens);
        let printed = write_program(&statements);
        assert_eq!(text_of(&printed), text_of(&tokens[..tokens.len() - 1]), "{}", source);
    }
}

#[test]
fn printed_tokens_parse_to_the_same_tree() {
    for source in PROGRAMS {
        let tokens = scanned(source);
        let statements = parsed(&tokens);
        let mut printed = write_program(&statements);
        printed.push(tokens.last().unwrap().clone());
        let again = parsed(&printed);
        assert_eq!(format!("{:?}", again), format!("{:?}", statements), "{}", source);
    }
}

#[test]
fn printed_text_scans_and_parses_to_the_same_program() {
    for source in PROGRAMS {
        let first = write_program(&parsed(&scanned(source)));
        let text = text_of(&first);
        let second = write_program(&parsed(&scanned(&text)));
        assert_eq!(text_of(&second), text, "{}", source);
        assert_eq!(first.len(), second.len());
    }
}

#[test]
fn a_for_loop_is_printed_as_the_loop_it_stands_for() {
    let statements = parsed(&scanned("for (var i = 0; i < 3; i = i + 1) print i;"));
    assert_eq!(
        text_of(&write_program(&statements)),
        "{ var i = 0 ; while ( i < 3 ) { print i ; i = i + 1 ; } }"
    );
}

#[test]
fn expressions_and_statements_are_written_behind_what_is_there() {
    let statements = parsed(&scanned("print a.b(1, 2) + -c; var d = (e);"));
    let mut out = vec![marked(TokenType::LeftBrace)];
    write_statement(&statements[0], &mut out);
    write_statement(&statements[1], &mut out);
    assert_eq!(text_of(&out), "{ print a . b ( 1 , 2 ) + - c ; var d = ( e ) ;");
    match &statements[0] {
        Statement::PrintStatement { value, .. } => {
            let mut out = Vec::new();
            write_expression(value, &mut out);
            assert_eq!(text_of(&out), "a . b ( 1 , 2 ) + - c");
        }
        other => panic!("no print: {:?}", other),
    }
}

#[test]
fn an_empty_program_is_written_with_no_token() {
    assert!(write_program(&Vec::new()).is_empty());
}
