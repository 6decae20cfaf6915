use rlox::error::{LoxError, LoxErrorKind};
use rlox::number::{FloatUnit, NumberOp};
use rlox::parse::Parser;
use rlox::resolver::Resolver;
use rlox::scan::Scanner;
use rlox::scopes::{ClassType, FunctionType};
use rlox::tokens::Token;
use rlox::tree_walker::TreeWalker;

fn resolving_unit() -> FloatUnit<
    impl Fn(String) -> Option<u64>,
    impl Fn(NumberOp, u64, u64) -> u64,
    impl Fn(u64) -> String,
> {
    FloatUnit {
        parse: |text: String| text.parse::<f64>().ok().map(f64::to_bits),
        combine: |_op: NumberOp, left: u64, _right: u64| left,
        render: |number: u64| format!("{}", f64::from_bits(number)),
    }
}

struct Resolved {
    tokens: Vec<Token>,
    walker: TreeWalker,
    errors: Vec<LoxError>,
}

impl Resolved {
    /// The depth recorded for the `n`-th token (from 0) with this lexeme.
    fn depth(&self, lexeme: &str, n: usize) -> Option<usize> {
        let token = self.tokens.iter().filter(|t| t.lexeme == lexeme).nth(n).expect("no such token");
        self.walker.locals.get(&token.id).copied()
    }
}

fn resolve(source: &str) -> Resolved {
    let mut scanner = Scanner::new();
    scanner.scan(&source.to_string(), &resolving_unit()).expect("scan error");
    let mut parser = Parser::new();
    let statements = parser.parse(&scanner.tokens).expect("parse errors");
    let mut walker = TreeWalker::new();
    let mut resolver = Resolver::new();
    resolver.resolve(&statements, &mut walker);
    assert_eq!(resolver.scopes.len(), 0);
    assert_eq!(resolver.current_function, FunctionType::NoFunction);
    assert_eq!(resolver.current_class, ClassType::NoClass);
    Resolved { tokens: scanner.tokens, walker, errors: resolver.errors }
}

fn messages(source: &str) -> Vec<&'static str> {
    let resolved = resolve(source);
    for error in &resolved.errors {
        assert_eq!(error.kind, LoxErrorKind::ResolvingError);
    }
    resolved.errors.iter().map(|e| e.message).collect()
}

#[test]
fn globals_get_no_depth() {
    let resolved = resolve("var a = 1; print a; a = 2; fun f() {} f();");
    assert!(resolved.errors.is_empty());
    assert!(resolved.walker.locals.is_empty());
}

#[test]
fn a_local_is_found_in_its_own_scope() {
    let resolved = resolve("{ var a = 1; print a; a = 2; }");
    assert!(resolved.errors.is_empty());
    assert_eq!(resolved.depth("a", 0), None);
    assert_eq!(resolved.depth("a", 1), Some(0));
    assert_eq!(resolved.depth("a", 2), Some(0));
    assert_eq!(resolved.walker.locals.len(), 2);
}

#[test]
fn the_depth_counts_the_scopes_in_between() {
    let resolved = resolve("{ var a; { var b; { print a; print b; { a = b; } } } }");
    assert!(resolved.errors.is_empty());
    assert_eq!(resolved.depth("a", 1), Some(2));
    assert_eq!(resolved.depth("b", 1), Some(1));
    assert_eq!(resolved.depth("a", 2), Some(3));
    assert_eq!(resolved.depth("b", 2), Some(2));
}

#[test]
fn the_nearest_declaration_wins() {
    let resolved = resolve("var a; { var a; { var a; print a; } print a; } print a;");
    assert_eq!(resolved.depth("a", 3), Some(0));
    assert_eq!(resolved.depth("a", 4), Some(0));
    assert_eq!(resolved.depth("a", 5), None);
}

#[test]
fn a_use_before_the_local_declaration_binds_outside() {
    let resolved = resolve("var a = \"global\"; { fun show() { print a; } show(); var a = \"local\"; show(); }");
    assert!(resolved.errors.is_empty());
    assert_eq!(resolved.depth("a", 1), None);
    assert_eq!(resolved.depth("show", 1), Some(0));
    assert_eq!(resolved.depth("show", 2), Some(0));
}

#[test]
fn parameters_live_in_the_scope_of_the_body() {
    let resolved = resolve("fun f(x, y) { print x; { print y; } } ");
    assert!(resolved.errors.is_empty());
    assert_eq!(resolved.depth("x", 1), Some(0));
    assert_eq!(resolved.depth("y", 1), Some(1));
}

#[test]
fn a_local_function_may_call_itself() {
    let resolved = resolve("{ fun f(n) { return f(n); } }");
    assert!(resolved.errors.is_empty());
    assert_eq!(resolved.depth("f", 1), Some(1));
    assert_eq!(resolved.depth("n", 1), Some(0));
}

#[test]
fn this_and_super_have_scopes_of_their_own() {
    let resolved = resolve("class A { m() { return this; } }");
    assert!(resolved.errors.is_empty());
    assert_eq!(resolved.depth("this", 0), Some(1));
    let resolved = resolve("class A {} class B < A { m() { super.m(); return this; } }");
    assert!(resolved.errors.is_empty());
    assert_eq!(resolved.depth("super", 0), Some(2));
    assert_eq!(resolved.depth("this", 0), Some(1));
    let resolved = resolve("class A { m() { fun g() { { print this; } } } }");
    assert_eq!(resolved.depth("this", 0), Some(3));
}

#[test]
fn a_local_superclass_is_resolved_as_a_variable() {
    let resolved = resolve("{ class A {} class B < A {} }");
    assert!(resolved.errors.is_empty());
    assert_eq!(resolved.depth("A", 1), Some(0));
}

#[test]
fn a_name_is_declared_once_in_a_local_scope() {
    assert_eq!(
        messages("{ var a = 1; var a = 2; }"),
        vec!["Variable with this name already exists in this scope"]
    );
    assert_eq!(
        messages("fun f(a, a) {}"),
        vec!["Variable with this name already exists in this scope"]
    );
    assert_eq!(
        messages("fun f(a) { var a; }"),
        vec!["Variable with this name already exists in this scope"]
    );
    assert!(messages("var a = 1; var a = 2;").is_empty());
    assert!(messages("{ var a; { var a; } }").is_empty());
}

#[test]
fn a_local_is_not_read_in_its_own_initializer() {
    assert_eq!(
        messages("var a = 1; { var a = a; }"),
        vec!["Can't read local variable in its own initializer"]
    );
    assert!(messages("var a = a;").is_empty());
    assert!(messages("{ var a = 1; { var b = a; } }").is_empty());
}

#[test]
fn return_belongs_inside_a_function() {
    assert_eq!(messages("return 1;"), vec!["Can't have a return statement in top level code"]);
    assert_eq!(messages("return;"), vec!["Can't have a return statement in top level code"]);
    assert_eq!(messages("{ if (true) return; }"), vec!["Can't have a return statement in top level code"]);
    assert!(messages("fun f() { return 1; }").is_empty());
    assert_eq!(
        messages("fun f() { return 1; } return 2;"),
        vec!["Can't have a return statement in top level code"]
    );
}

#[test]
fn an_initializer_returns_no_value() {
    assert_eq!(
        messages("class A { init() { return 1; } }"),
        vec!["Can't return a value from an initializer"]
    );
    assert!(messages("class A { init() { return; } }").is_empty());
    assert!(messages("class A { start() { return 1; } }").is_empty());
    assert!(messages("class A { init() { fun f() { return 1; } } }").is_empty());
}

#[test]
fn this_belongs_inside_a_class() {
    assert_eq!(messages("print this;"), vec!["Can't use 'this' outside of a class"]);
    assert_eq!(messages("fun f() { return this; }"), vec!["Can't use 'this' outside of a class"]);
    assert!(messages("class A { m() { return this; } }").is_empty());
    assert_eq!(
        messages("class A { m() {} } print this;"),
        vec!["Can't use 'this' outside of a class"]
    );
}

#[test]
fn super_belongs_inside_a_subclass() {
    assert_eq!(messages("super.m();"), vec!["Can't use 'super' outside of a class"]);
    assert_eq!(
        messages("class A { m() { super.m(); } }"),
        vec!["Can't use 'super' in a class with no superclass"]
    );
    assert!(messages("class A {} class B < A { m() { super.m(); } }").is_empty());
}

#[test]
fn a_class_does_not_inherit_from_itself() {
    assert_eq!(messages("class C < C {}"), vec!["A class can't inherit from itself"]);
}

#[test]
fn every_error_is_kept() {
    assert_eq!(
        messages("return 1; print this; { var a; var a; }"),
        vec![
            "Can't have a return statement in top level code",
            "Can't use 'this' outside of a class",
            "Variable with this name already exists in this scope",
        ]
    );
}

#[test]
fn depths_are_added_to_those_of_earlier_programs() {
    let unit = resolving_unit();
    let mut scanner = Scanner::new();
    let mut walker = TreeWalker::new();
    for source in ["{ var a; print a; }", "{ var b; { print b; } }"] {
        scanner.scan(&source.to_string(), &unit).expect("scan error");
        let mut parser = Parser::new();
        let statements = parser.parse(&scanner.tokens).expect("parse errors");
        let mut resolver = Resolver::new();
        resolver.resolve(&statements, &mut walker);
        assert!(resolver.errors.is_empty());
    }
    assert_eq!(walker.locals.len(), 2);
    assert_eq!(walker.locals.get(&5), Some(&0));
    assert_eq!(walker.locals.get(&15), Some(&1));
}

#[test]
fn the_interpreter_records_a_depth_for_a_token() {
    let mut scanner = Scanner::new();
    scanner.scan(&"a b".to_string(), &resolving_unit()).expect("scan error");
    let mut walker = TreeWalker::new();
    walker.resolve(&scanner.tokens[1], 3);
    walker.resolve(&scanner.tokens[0], 1);
    walker.resolve(&scanner.tokens[1], 4);
    assert_eq!(walker.locals.get(&0), Some(&1));
    assert_eq!(walker.locals.get(&1), Some(&4));
}
