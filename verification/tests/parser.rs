use rlox::ast::{BinaryOperator, Expr, FunDeclStatement, LogicalOperator, Statement, UnaryOperator};
use rlox::error::{LoxError, LoxErrorKind};
use rlox::number::{FloatUnit, NumberOp};
use rlox::parse::Parser;
use rlox::scan::Scanner;
use rlox::tokens::{LiteralValue, Token, TokenType};

fn parser_unit() -> FloatUnit<
    impl Fn(String) -> Option<u64>,
    impl Fn(NumberOp, u64, u64) -> u64,
    impl Fn(u64) -> String,
> {
    FloatUnit {
        parse: |text: String| text.parse::<f64>().ok().map(f64::to_bits),
        combine: |_op: NumberOp, left: u64, _right: u64| left,
        render: |number: u64| format!("{}", f64::from_bits(number)),
    }
}

fn tokens_of(source: &str) -> Vec<Token> {
    let mut scanner = Scanner::new();
    scanner.scan(&source.to_string(), &parser_unit()).expect("scan error");
    scanner.tokens
}

fn parse_source(source: &str) -> Result<Vec<Statement>, Vec<LoxError>> {
    let mut parser = Parser::new();
    match parser.parse(&tokens_of(source)) {
        Ok(statements) => Ok(statements),
        Err(()) => Err(parser.errors),
    }
}

fn show_literal(value: &LiteralValue) -> String {
    match value {
        LiteralValue::NumberValue(bits) => format!("{}", f64::from_bits(*bits)),
        LiteralValue::StringValue(text) => format!("{:?}", text),
        LiteralValue::BooleanValue(b) => format!("{}", b),
        LiteralValue::NilValue => "nil".to_string(),
    }
}

fn show_expr(e: &Expr) -> String {
    match e {
        Expr::Binary { token, operator, left, right } => {
            let name = match operator {
                BinaryOperator::BangEqual => "!=",
                BinaryOperator::EqualEqual => "==",
                BinaryOperator::Greater => ">",
                BinaryOperator::GreaterEqual => ">=",
                BinaryOperator::Less => "<",
                BinaryOperator::LessEqual => "<=",
                BinaryOperator::Minus => "-",
                BinaryOperator::Plus => "+",
                BinaryOperator::Slash => "/",
                BinaryOperator::Star => "*",
            };
            assert_eq!(token.lexeme, name);
            format!("({} {} {})", name, show_expr(left), show_expr(right))
        }
        Expr::Unary { token, operator, right } => {
            let name = match operator {
                UnaryOperator::Bang => "!",
                UnaryOperator::Minus => "-",
            };
            assert_eq!(token.lexeme, name);
            format!("({} {})", name, show_expr(right))
        }
        Expr::Literal { value, .. } => show_literal(value),
        Expr::Grouping { expr } => format!("(group {})", show_expr(expr)),
        Expr::Variable { token } => token.lexeme.clone(),
        Expr::Assignment { token, value } => format!("(= {} {})", token.lexeme, show_expr(value)),
        Expr::Logical { token, operator, left, right } => {
            let name = match operator {
                LogicalOperator::And => "and",
                LogicalOperator::Or => "or",
            };
            assert_eq!(token.lexeme, name);
            format!("({} {} {})", name, show_expr(left), show_expr(right))
        }
        Expr::Call { callee, arguments, token } => {
            assert_eq!(token.token_type, TokenType::RightParen);
            let mut text = format!("(call {}", show_expr(callee));
            for argument in arguments {
                text.push(' ');
                text.push_str(&show_expr(argument));
            }
            text.push(')');
            text
        }
        Expr::Get { object, name } => format!("(get {} {})", show_expr(object), name.lexeme),
        Expr::SetProperty { object, name, value } => {
            format!("(set {} {} {})", show_expr(object), name.lexeme, show_expr(value))
        }
        Expr::This { .. } => "this".to_string(),
        Expr::Super { method, .. } => format!("(super {})", method.lexeme),
    }
}

fn show_function(declaration: &FunDeclStatement) -> String {
    let parameters: Vec<String> = declaration.parameters.iter().map(|p| p.lexeme.clone()).collect();
    format!(
        "(fun {} ({}) {})",
        declaration.name.lexeme,
        parameters.join(" "),
        show_block(&declaration.body)
    )
}

fn show_block(statements: &[Statement]) -> String {
    let shown: Vec<String> = statements.iter().map(show_statement).collect();
    format!("{{{}}}", shown.join(" "))
}

fn show_statement(s: &Statement) -> String {
    match s {
        Statement::ExpressionStatement { expression } => format!("(expr {})", show_expr(expression)),
        Statement::PrintStatement { token, value } => {
            assert_eq!(token.token_type, TokenType::Print);
            format!("(print {})", show_expr(value))
        }
        Statement::VarDeclStatement { token, initializer } => match initializer {
            Some(e) => format!("(var {} {})", token.lexeme, show_expr(e)),
            None => format!("(var {})", token.lexeme),
        },
        Statement::BlockStatement { statements } => show_block(statements),
        Statement::IfStatement { condition, then_branch, else_branch } => match else_branch {
            Some(other) => format!(
                "(if {} {} {})",
                show_expr(condition),
                show_statement(then_branch),
                show_statement(other)
            ),
            None => format!("(if {} {})", show_expr(condition), show_statement(then_branch)),
        },
        Statement::WhileStatement { condition, body } => {
            format!("(while {} {})", show_expr(condition), show_statement(body))
        }
        Statement::FunDeclStatement { declaration } => show_function(declaration),
        Statement::ReturnStatement { keyword, value } => {
            assert_eq!(keyword.token_type, TokenType::Return);
            match value {
                Some(e) => format!("(return {})", show_expr(e)),
                None => "(return)".to_string(),
            }
        }
        Statement::ClassDeclStatement { name, methods, superclass } => {
            let shown: Vec<String> = methods.iter().map(|m| show_function(m)).collect();
            match superclass {
                Some(above) => format!("(class {} < {} [{}])", name.lexeme, above.lexeme, shown.join(" ")),
                None => format!("(class {} [{}])", name.lexeme, shown.join(" ")),
            }
        }
    }
}

fn shown(source: &str) -> String {
    let statements = parse_source(source).expect("parse errors");
    let parts: Vec<String> = statements.iter().map(show_statement).collect();
    parts.join(" ")
}

fn first_error(source: &str) -> LoxError {
    parse_source(source).expect_err("no parse error")[0]
}

#[test]
fn empty_program() {
    assert_eq!(parse_source("").unwrap().len(), 0);
    assert_eq!(parse_source("// nothing\n").unwrap().len(), 0);
}

#[test]
fn precedence_of_arithmetic() {
    assert_eq!(shown("1 + 2 * 3;"), "(expr (+ 1 (* 2 3)))");
    assert_eq!(shown("(1 + 2) * 3;"), "(expr (* (group (+ 1 2)) 3))");
    assert_eq!(shown("1 * 2 + 3;"), "(expr (+ (* 1 2) 3))");
    assert_eq!(shown("1 - 2 / 3;"), "(expr (- 1 (/ 2 3)))");
}

#[test]
fn operators_associate_to_the_left() {
    assert_eq!(shown("1 - 2 - 3;"), "(expr (- (- 1 2) 3))");
    assert_eq!(shown("8 / 4 / 2;"), "(expr (/ (/ 8 4) 2))");
    assert_eq!(shown("a == b != c;"), "(expr (!= (== a b) c))");
    assert_eq!(shown("a < b <= c > d >= e;"), "(expr (>= (> (<= (< a b) c) d) e))");
    assert_eq!(shown("a or b or c;"), "(expr (or (or a b) c))");
    assert_eq!(shown("a and b and c;"), "(expr (and (and a b) c))");
}

#[test]
fn levels_of_precedence_from_low_to_high() {
    assert_eq!(
        shown("a = b or c and d == e < f + g * -h;"),
        "(expr (= a (or b (and c (== d (< e (+ f (* g (- h)))))))))"
    );
    assert_eq!(shown("a or b and c;"), "(expr (or a (and b c)))");
    assert_eq!(shown("a and b or c;"), "(expr (or (and a b) c))");
    assert_eq!(shown("1 < 2 == 3 > 4;"), "(expr (== (< 1 2) (> 3 4)))");
}

#[test]
fn unary_operators_nest() {
    assert_eq!(shown("!!a;"), "(expr (! (! a)))");
    assert_eq!(shown("--1;"), "(expr (- (- 1)))");
    assert_eq!(shown("-a.b;"), "(expr (- (get a b)))");
    assert_eq!(shown("!f();"), "(expr (! (call f)))");
    assert_eq!(shown("1 - -2;"), "(expr (- 1 (- 2)))");
}

#[test]
fn literals() {
    assert_eq!(
        shown("1; 2.5; \"s\"; true; false; nil;"),
        "(expr 1) (expr 2.5) (expr \"s\") (expr true) (expr false) (expr nil)"
    );
}

#[test]
fn calls_and_property_access_chain() {
    assert_eq!(shown("f();"), "(expr (call f))");
    assert_eq!(shown("f(1, a, 2 + 3);"), "(expr (call f 1 a (+ 2 3)))");
    assert_eq!(shown("f(1)(2)(3);"), "(expr (call (call (call f 1) 2) 3))");
    assert_eq!(shown("a.b.c;"), "(expr (get (get a b) c))");
    assert_eq!(shown("a.b(1).c(2);"), "(expr (call (get (call (get a b) 1) c) 2))");
    assert_eq!(shown("this.x;"), "(expr (get this x))");
    assert_eq!(shown("super.m(1);"), "(expr (call (super m) 1))");
}

#[test]
fn assignment_targets() {
    assert_eq!(shown("a = 1;"), "(expr (= a 1))");
    assert_eq!(shown("a = b = c;"), "(expr (= a (= b c)))");
    assert_eq!(shown("a.b = 1;"), "(expr (set a b 1))");
    assert_eq!(shown("a.b.c = d;"), "(expr (set (get a b) c d))");
    assert_eq!(shown("f().x = 1;"), "(expr (set (call f) x 1))");
}

#[test]
fn invalid_assignment_target_is_recorded_and_parsing_goes_on() {
    let errors = parse_source("1 = 2; print 3; (a) = 4;").expect_err("no parse error");
    assert_eq!(errors.len(), 2);
    assert_eq!(errors[0].message, "invalid assignment target");
    assert_eq!(errors[0].kind, LoxErrorKind::SyntaxError(1));
    assert_eq!(errors[1].message, "invalid assignment target");
    let mut parser = Parser::new();
    let tokens = tokens_of("a + b = c; var d;");
    assert!(parser.parse(&tokens).is_err());
    assert_eq!(parser.errors.len(), 1);
}

#[test]
fn statements() {
    assert_eq!(shown("print 1;"), "(print 1)");
    assert_eq!(shown("var a;"), "(var a)");
    assert_eq!(shown("var a = 1 + 2;"), "(var a (+ 1 2))");
    assert_eq!(shown("{ var a; print a; }"), "{(var a) (print a)}");
    assert_eq!(shown("{}"), "{}");
    assert_eq!(shown("{{}}"), "{{}}");
    assert_eq!(shown("if (a) print 1;"), "(if a (print 1))");
    assert_eq!(shown("if (a) print 1; else print 2;"), "(if a (print 1) (print 2))");
    assert_eq!(shown("while (a < 3) a = a + 1;"), "(while (< a 3) (expr (= a (+ a 1))))");
    assert_eq!(shown("return;"), "(return)");
    assert_eq!(shown("return 1;"), "(return 1)");
}

#[test]
fn else_belongs_to_the_nearest_if() {
    assert_eq!(
        shown("if (a) if (b) print 1; else print 2;"),
        "(if a (if b (print 1) (print 2)))"
    );
}

#[test]
fn functions_and_classes() {
    assert_eq!(shown("fun f() {}"), "(fun f () {})");
    assert_eq!(shown("fun f(a) { return a; }"), "(fun f (a) {(return a)})");
    assert_eq!(shown("fun f(a, b, c) { print a; }"), "(fun f (a b c) {(print a)})");
    assert_eq!(shown("class A {}"), "(class A [])");
    assert_eq!(shown("class A < B {}"), "(class A < B [])");
    assert_eq!(
        shown("class A { init(x) { this.x = x; } get() { return this.x; } }"),
        "(class A [(fun init (x) {(expr (set this x x))}) (fun get () {(return (get this x))})])"
    );
}

#[test]
fn a_for_loop_becomes_a_while_loop() {
    assert_eq!(
        shown("for (var i = 0; i < 3; i = i + 1) print i;"),
        "{(var i 0) (while (< i 3) {(print i) (expr (= i (+ i 1)))})}"
    );
    assert_eq!(
        shown("for (i = 0; i < 3; i = i + 1) print i;"),
        "{(expr (= i 0)) (while (< i 3) {(print i) (expr (= i (+ i 1)))})}"
    );
    assert_eq!(shown("for (; i < 3; i = i + 1) print i;"), "(while (< i 3) {(print i) (expr (= i (+ i 1)))})");
    assert_eq!(shown("for (var i = 0; i < 3;) print i;"), "{(var i 0) (while (< i 3) (print i))}");
    assert_eq!(shown("for (; i < 3;) print i;"), "(while (< i 3) (print i))");
    assert_eq!(shown("for (;;) print i;"), "(while true (print i))");
    assert_eq!(shown("for (var i = 0;; i = i + 1) {}"), "{(var i 0) (while true {{} (expr (= i (+ i 1)))})}");
}

#[test]
fn a_for_loop_and_its_while_loop_parse_alike() {
    assert_eq!(
        shown("for (var i = 0; i < 3; i = i + 1) print i;"),
        shown("{ var i = 0; while (i < 3) { print i; i = i + 1; } }")
    );
    assert_eq!(shown("for (; a;) b;"), shown("while (a) b;"));
}

#[test]
fn a_printed_program_parses_to_the_same_tree() {
    let sources = [
        "print 1 + 2 * 3;",
        "var a = (1 + 2) * -3;",
        "fun f(a, b) { if (a < b) return a; else return b; }",
        "class B < A { init(x) { super.init(x); this.y = x; } m() { return this.y or nil and true; } }",
        "{ var a = f(1)(2).g; while (!a) { a = a.next; } }",
        "x.y.z = a = b == c != d;",
    ];
    for source in sources {
        let first = parse_source(source).expect("parse errors");
        let printed: Vec<String> = first.iter().map(unparse_statement).collect();
        let again = shown(&printed.join("\n"));
        let parts: Vec<String> = first.iter().map(show_statement).collect();
        assert_eq!(again, parts.join(" "), "{}", printed.join("\n"));
    }
}

fn unparse_expr(e: &Expr) -> String {
    match e {
        Expr::Binary { token, left, right, .. } => {
            format!("{} {} {}", unparse_expr(left), token.lexeme, unparse_expr(right))
        }
        Expr::Unary { token, right, .. } => format!("{}{}", token.lexeme, unparse_expr(right)),
        Expr::Literal { token, .. } => token.lexeme.clone(),
        Expr::Grouping { expr } => format!("({})", unparse_expr(expr)),
        Expr::Variable { token } => token.lexeme.clone(),
        Expr::Assignment { token, value } => format!("{} = {}", token.lexeme, unparse_expr(value)),
        Expr::Logical { token, left, right, .. } => {
            format!("{} {} {}", unparse_expr(left), token.lexeme, unparse_expr(right))
        }
        Expr::Call { callee, arguments, .. } => {
            let list: Vec<String> = arguments.iter().map(unparse_expr).collect();
            format!("{}({})", unparse_expr(callee), list.join(", "))
        }
        Expr::Get { object, name } => format!("{}.{}", unparse_expr(object), name.lexeme),
        Expr::SetProperty { object, name, value } => {
            format!("{}.{} = {}", unparse_expr(object), name.lexeme, unparse_expr(value))
        }
        Expr::This { .. } => "this".to_string(),
        Expr::Super { method, .. } => format!("super.{}", method.lexeme),
    }
}

fn unparse_function(declaration: &FunDeclStatement) -> String {
    let parameters: Vec<String> = declaration.parameters.iter().map(|p| p.lexeme.clone()).collect();
    let body: Vec<String> = declaration.body.iter().map(unparse_statement).collect();
    format!("{}({}) {{ {} }}", declaration.name.lexeme, parameters.join(", "), body.join(" "))
}

fn unparse_statement(s: &Statement) -> String {
    match s {
        Statement::ExpressionStatement { expression } => format!("{};", unparse_expr(expression)),
        Statement::PrintStatement { value, .. } => format!("print {};", unparse_expr(value)),
        Statement::VarDeclStatement { token, initializer } => match initializer {
            Some(e) => format!("var {} = {};", token.lexeme, unparse_expr(e)),
            None => format!("var {};", token.lexeme),
        },
        Statement::BlockStatement { statements } => {
            let body: Vec<String> = statements.iter().map(unparse_statement).collect();
            format!("{{ {} }}", body.join(" "))
        }
        Statement::IfStatement { condition, then_branch, else_branch } => match else_branch {
            Some(other) => format!(
                "if ({}) {} else {}",
                unparse_expr(condition),
                unparse_statement(then_branch),
                unparse_statement(other)
            ),
            None => format!("if ({}) {}", unparse_expr(condition), unparse_statement(then_branch)),
        },
        Statement::WhileStatement { condition, body } => {
            format!("while ({}) {}", unparse_expr(condition), unparse_statement(body))
        }
        Statement::FunDeclStatement { declaration } => format!("fun {}", unparse_function(declaration)),
        Statement::ReturnStatement { value, .. } => match value {
            Some(e) => format!("return {};", unparse_expr(e)),
            None => "return;".to_string(),
        },
        Statement::ClassDeclStatement { name, methods, superclass } => {
            let body: Vec<String> = methods.iter().map(|m| unparse_function(m)).collect();
            match superclass {
                Some(above) => format!("class {} < {} {{ {} }}", name.lexeme, above.lexeme, body.join(" ")),
                None => format!("class {} {{ {} }}", name.lexeme, body.join(" ")),
            }
        }
    }
}

#[test]
fn syntax_errors_carry_the_line() {
    let error = first_error("print 1;\nprint ;\n");
    assert_eq!(error.kind, LoxErrorKind::SyntaxError(2));
    assert_eq!(error.message, "invalid syntax");
    let error = first_error("var a = 1\n\nvar b;");
    assert_eq!(error.kind, LoxErrorKind::SyntaxError(3));
    assert_eq!(error.message, "expected ';' after variable declaration");
    assert_eq!(error.describe(), "SyntaxError: line 3");
}

#[test]
fn messages_of_syntax_errors() {
    let cases = [
        ("print 1", "expected ';' after statement"),
        ("1 + 2", "expected ';' after statement"),
        ("var 1;", "expected identifier"),
        ("var a = ;", "invalid syntax"),
        ("(1 + 2;", "expected ')' after expression"),
        ("f(1, 2;", "expected ')' after arguments"),
        ("a.1;", "expected identifier after '.'"),
        ("super;", "expected '.' after 'super' keyword"),
        ("super.1;", "expected superclass method name after '.'"),
        ("{ print 1;", "reached EOF while parsing, expected '}'"),
        ("if a) b;", "expected '(' after if"),
        ("if (a b;", "expected ')' after if condition"),
        ("while a) b;", "expected '(' after while"),
        ("while (a b;", "expected ')' after while condition"),
        ("for a;;) b;", "expected '(' after for"),
        ("for (;a b;) c;", "expected ';' after for condition"),
        ("for (;;a b) c;", "expected ')' after for clause"),
        ("return 1", "expected ';' after return statement"),
        ("fun () {}", "expected function name"),
        ("fun f {}", "expected '(' after function name"),
        ("fun f(1) {}", "expected identifier"),
        ("fun f(a b) {}", "expected ')' after parameters"),
        ("fun f(a) print a;", "expected '{' before function body"),
        ("class {}", "expected class name"),
        ("class A < {}", "expected superclass name"),
        ("class A print 1;", "expected '{' after class declaration"),
        ("class A { 1 }", "expected method name"),
        ("class A { m {} }", "expected '(' after method name"),
        ("class A { m() 1 }", "expected '{' before method body"),
        ("class A { m() {}", "reached EOF while parsing, expected '}'"),
        ("+ 1;", "invalid syntax"),
        (")", "invalid syntax"),
    ];
    for (source, message) in cases {
        let error = first_error(source);
        assert_eq!(error.message, message, "{}", source);
        assert!(matches!(error.kind, LoxErrorKind::SyntaxError(_)), "{}", source);
    }
}

#[test]
fn the_parser_resumes_after_a_semicolon() {
    let errors = parse_source("print ; print 1; var ; var a; 1 +; 2;").expect_err("no parse error");
    assert_eq!(errors.len(), 3);
}

#[test]
fn the_parser_resumes_at_a_statement_keyword() {
    let errors = parse_source("1 + + 2 var a = 1; a b\nprint 2 print 3;").expect_err("no parse error");
    let lines: Vec<LoxErrorKind> = errors.iter().map(|e| e.kind).collect();
    assert_eq!(
        lines,
        vec![
            LoxErrorKind::SyntaxError(1),
            LoxErrorKind::SyntaxError(1),
            LoxErrorKind::SyntaxError(2)
        ]
    );
}

#[test]
fn every_error_of_a_run_is_kept() {
    let mut parser = Parser::new();
    assert!(parser.parse(&tokens_of("var;")).is_err());
    assert_eq!(parser.errors.len(), 1);
    assert!(parser.parse(&tokens_of("print 1;")).is_err());
    assert_eq!(parser.errors.len(), 1);
    assert!(parser.parse(&tokens_of("(")).is_err());
    assert_eq!(parser.errors.len(), 2);
}

fn call_with_arguments(n: usize) -> String {
    let arguments: Vec<String> = (0..n).map(|i| i.to_string()).collect();
    format!("f({});", arguments.join(", "))
}

fn function_with_parameters(n: usize) -> String {
    let parameters: Vec<String> = (0..n).map(|i| format!("p{}", i)).collect();
    format!("fun f({}) {{}}", parameters.join(", "))
}

#[test]
fn up_to_256_arguments_are_taken_without_a_complaint() {
    for n in [1, 255, 256] {
        let statements = parse_source(&call_with_arguments(n)).expect("parse errors");
        match &statements[0] {
            Statement::ExpressionStatement { expression: Expr::Call { arguments, .. } } => {
                assert_eq!(arguments.len(), n)
            }
            other => panic!("no call: {:?}", other),
        }
    }
}

#[test]
fn more_arguments_are_an_error_that_does_not_stop_the_parser() {
    let errors = parse_source(&(call_with_arguments(257) + " print ;")).expect_err("no parse error");
    assert_eq!(errors.len(), 2);
    assert_eq!(errors[0].message, "can't have > 255 arguments to a function call");
    assert_eq!(errors[1].message, "invalid syntax");
    let errors = parse_source(&call_with_arguments(259)).expect_err("no parse error");
    assert_eq!(errors.len(), 3);
}

#[test]
fn more_parameters_are_an_error_that_does_not_stop_the_parser() {
    assert!(parse_source(&function_with_parameters(256)).is_ok());
    let errors = parse_source(&function_with_parameters(257)).expect_err("no parse error");
    assert_eq!(errors.len(), 1);
    assert_eq!(errors[0].message, "can't have > 255 arguments to a function call");
}

#[test]
fn tokens_without_an_eof_are_read_to_their_end() {
    let mut tokens = tokens_of("print 1; print 2;");
    tokens.pop();
    let mut parser = Parser::new();
    let statements = parser.parse(&tokens).expect("parse errors");
    assert_eq!(statements.len(), 2);
    let mut tokens = tokens_of("print 1");
    tokens.pop();
    let mut parser = Parser::new();
    assert!(parser.parse(&tokens).is_err());
    assert_eq!(parser.errors[0].kind, LoxErrorKind::SyntaxError(1));
    let mut parser = Parser::new();
    assert_eq!(parser.parse(&Vec::new()).expect("parse errors").len(), 0);
}

#[test]
fn nothing_behind_the_first_eof_is_read() {
    let mut tokens = tokens_of("print 1;");
    tokens.extend(tokens_of("print 2;"));
    let mut parser = Parser::new();
    assert_eq!(parser.parse(&tokens).expect("parse errors").len(), 1);
}

#[test]
fn a_literal_token_without_a_value_is_a_syntax_error() {
    let mut tokens = tokens_of("1;");
    tokens[0].literal = None;
    let mut parser = Parser::new();
    assert!(parser.parse(&tokens).is_err());
    assert_eq!(parser.errors[0].message, "invalid syntax");
}

#[test]
fn the_tree_keeps_the_tokens_it_was_read_from() {
    let statements = parse_source("var a = 1;\nprint a + 2;").expect("parse errors");
    match &statements[1] {
        Statement::PrintStatement { token, value: Expr::Binary { token: plus, left, .. } } => {
            assert_eq!(token.id, 5);
            assert_eq!(token.line, 2);
            assert_eq!(plus.id, 7);
            match &**left {
                Expr::Variable { token } => assert_eq!((token.id, token.lexeme.as_str()), (6, "a")),
                other => panic!("no variable: {:?}", other),
            }
        }
        other => panic!("no print: {:?}", other),
    }
}
