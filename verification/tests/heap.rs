use std::rc::Rc;

use rlox::ast::{Expr, FunDeclStatement, Statement};
use rlox::callable::{Callable, Function};
use rlox::class::{LoxClass, LoxInstance};
use rlox::environment::Environment;
use rlox::error::LoxErrorKind;
use rlox::heap::Heap;
use rlox::number::{FloatUnit, NumberOp};
use rlox::output::Recorder;
use rlox::table::Table;
use rlox::tokens::{LiteralValue, Token, TokenType};
use rlox::tree_walker::{Completion, TreeWalker};
use rlox::value::Value;

fn heap_unit() -> FloatUnit<
    impl Fn(String) -> Option<u64>,
    impl Fn(NumberOp, u64, u64) -> u64,
    impl Fn(u64) -> String,
> {
    FloatUnit {
        parse: |text: String| text.parse::<f64>().ok().map(f64::to_bits),
        combine: |op: NumberOp, left: u64, right: u64| {
            let l = f64::from_bits(left);
            let r = f64::from_bits(right);
            let result = match op {
                NumberOp::Add => l + r,
                NumberOp::Subtract => l - r,
                NumberOp::Multiply => l * r,
                NumberOp::Divide => l / r,
            };
            result.to_bits()
        },
        render: |number: u64| format!("{}", f64::from_bits(number)),
    }
}

fn s(text: &str) -> String {
    text.to_string()
}

fn token(kind: TokenType, lexeme: &str, id: u32) -> Token {
    Token { token_type: kind, lexeme: s(lexeme), literal: None, line: 1, id }
}

fn number(n: f64) -> Value {
    Value::NumberValue(n.to_bits())
}

fn as_number(v: &Value) -> f64 {
    match v {
        Value::NumberValue(bits) => f64::from_bits(*bits),
        other => panic!("no number: {:?}", other),
    }
}

fn method(name: &str, parameters: &[&str], closure: usize) -> Function {
    let declaration = FunDeclStatement {
        name: token(TokenType::Identifier, name, 0),
        parameters: parameters.iter().map(|p| token(TokenType::Identifier, p, 0)).collect(),
        body: Vec::new(),
    };
    Function::new(Rc::new(declaration), closure, name == "init")
}

#[test]
fn a_table_maps_names_to_values() {
    let mut table: Table<u32> = Table::new();
    assert!(!table.contains_key(&s("a")));
    assert_eq!(table.get(&s("a")), None);
    table.insert(s("a"), 1);
    table.insert(s("b"), 2);
    assert_eq!(table.get(&s("a")), Some(&1));
    assert_eq!(table.get(&s("b")), Some(&2));
    assert_eq!(table.get(&s("c")), None);
    table.insert(s("a"), 3);
    assert_eq!(table.get(&s("a")), Some(&3));
    assert_eq!(table.get(&s("b")), Some(&2));
    assert!(table.contains_key(&s("b")));
    assert!(!table.contains_key(&s("")));
    table.insert(s(""), 4);
    assert_eq!(table.get(&s("")), Some(&4));
}

#[test]
fn an_environment_holds_the_values_of_its_names() {
    let mut environment = Environment::new();
    assert!(environment.parent.is_none());
    assert!(environment.get(&s("a")).is_none());
    environment.define(&s("a"), number(1.0));
    environment.define(&s("b"), Value::NilValue);
    assert_eq!(as_number(&environment.get(&s("a")).unwrap()), 1.0);
    environment.define(&s("a"), number(2.0));
    assert_eq!(as_number(&environment.get(&s("a")).unwrap()), 2.0);
    assert!(matches!(environment.get(&s("b")), Some(Value::NilValue)));
    assert_eq!(Environment::inside(7).parent, Some(7));
}

fn three_scopes() -> Heap {
    let mut heap = Heap::new();
    let mut outer = Environment::new();
    outer.define(&s("a"), number(0.0));
    outer.define(&s("only_outer"), number(10.0));
    let outer = heap.add_environment(outer);
    let mut middle = Environment::inside(outer);
    middle.define(&s("a"), number(1.0));
    let middle = heap.add_environment(middle);
    let mut inner = Environment::inside(middle);
    inner.define(&s("a"), number(2.0));
    let inner = heap.add_environment(inner);
    assert_eq!((outer, middle, inner), (0, 1, 2));
    heap
}

#[test]
fn a_name_is_read_at_its_depth_and_nowhere_else() {
    let heap = three_scopes();
    assert_eq!(as_number(&heap.get_at(2, &s("a"), 0).unwrap()), 2.0);
    assert_eq!(as_number(&heap.get_at(2, &s("a"), 1).unwrap()), 1.0);
    assert_eq!(as_number(&heap.get_at(2, &s("a"), 2).unwrap()), 0.0);
    assert_eq!(as_number(&heap.get_at(1, &s("a"), 1).unwrap()), 0.0);
    assert_eq!(as_number(&heap.get_at(2, &s("only_outer"), 2).unwrap()), 10.0);
    let error = heap.get_at(2, &s("only_outer"), 0).unwrap_err();
    assert_eq!(error.kind, LoxErrorKind::NameError);
    let error = heap.get_at(2, &s("only_outer"), 1).unwrap_err();
    assert_eq!(error.kind, LoxErrorKind::NameError);
    let error = heap.get_at(2, &s("a"), 3).unwrap_err();
    assert_eq!(error.kind, LoxErrorKind::RuntimeError);
    let error = heap.get_at(9, &s("a"), 0).unwrap_err();
    assert_eq!(error.kind, LoxErrorKind::RuntimeError);
    assert_eq!(heap.ancestor(2, 0), Some(2));
    assert_eq!(heap.ancestor(2, 2), Some(0));
    assert_eq!(heap.ancestor(2, 3), None);
    assert_eq!(heap.ancestor(3, 0), None);
}

#[test]
fn reading_from_a_scope_is_reading_by_its_handle() {
    let heap = three_scopes();
    for depth in 0..4 {
        for name in ["a", "only_outer", "nope"] {
            let by_handle = heap.get_at(2, &s(name), depth);
            let by_scope = heap.environments[2].get_at(&s(name), depth, &heap);
            match (by_handle, by_scope) {
                (Ok(a), Ok(b)) => assert_eq!(as_number(&a), as_number(&b)),
                (Err(a), Err(b)) => assert_eq!((a.kind, a.message), (b.kind, b.message)),
                other => panic!("they differ: {:?}", other),
            }
        }
    }
}

#[test]
fn a_name_is_written_at_its_depth() {
    let mut heap = three_scopes();
    heap.assign_at(2, 1, &s("a"), number(5.0)).unwrap();
    assert_eq!(as_number(&heap.get_at(2, &s("a"), 0).unwrap()), 2.0);
    assert_eq!(as_number(&heap.get_at(2, &s("a"), 1).unwrap()), 5.0);
    assert_eq!(as_number(&heap.get_at(2, &s("a"), 2).unwrap()), 0.0);
    heap.assign_at(2, 0, &s("fresh"), number(6.0)).unwrap();
    assert_eq!(as_number(&heap.get_at(2, &s("fresh"), 0).unwrap()), 6.0);
    assert_eq!(heap.assign_at(2, 3, &s("a"), number(7.0)).unwrap_err().kind, LoxErrorKind::RuntimeError);
    heap.define(0, &s("g"), number(8.0)).unwrap();
    assert_eq!(as_number(&heap.get_at(0, &s("g"), 0).unwrap()), 8.0);
    assert_eq!(heap.define(3, &s("g"), number(8.0)).unwrap_err().kind, LoxErrorKind::RuntimeError);
}

#[test]
fn a_global_is_written_only_if_it_is_defined() {
    let mut heap = three_scopes();
    heap.assign(0, &s("a"), number(9.0)).unwrap();
    assert_eq!(as_number(&heap.get_at(0, &s("a"), 0).unwrap()), 9.0);
    let error = heap.assign(0, &s("nope"), number(1.0)).unwrap_err();
    assert_eq!(error.kind, LoxErrorKind::NameError);
    assert_eq!(error.message, "Tried to assign to a name that is not defined");
    assert!(heap.get_at(0, &s("nope"), 0).is_err());
    assert_eq!(heap.assign(7, &s("a"), number(1.0)).unwrap_err().kind, LoxErrorKind::NameError);
}

fn class_with(methods: &[(&str, &[&str])], superclass: Option<usize>, name: &str) -> LoxClass {
    let mut table = Table::new();
    for (method_name, parameters) in methods {
        table.insert(s(method_name), method(method_name, parameters, 0));
    }
    LoxClass::new(s(name), table, superclass)
}

#[test]
fn a_class_takes_the_arguments_of_its_initializer() {
    assert_eq!(class_with(&[], None, "A").arity(), 0);
    assert_eq!(class_with(&[("m", &["a", "b"])], None, "A").arity(), 0);
    assert_eq!(class_with(&[("init", &[])], None, "A").arity(), 0);
    assert_eq!(class_with(&[("init", &["a", "b", "c"]), ("m", &["x"])], None, "A").arity(), 3);
    let class = class_with(&[], Some(4), "Named");
    assert_eq!(class.name, "Named");
    assert_eq!(class.superclass, Some(4));
}

#[test]
fn a_method_is_looked_for_up_the_chain_of_superclasses() {
    let mut heap = Heap::new();
    heap.add_environment(Environment::new());
    let a = heap.add_class(class_with(&[("only_a", &[]), ("both", &["from_a"])], None, "A"));
    let b = heap.add_class(class_with(&[("both", &["from_b", "x"]), ("only_b", &[])], Some(a), "B"));
    let c = heap.add_class(class_with(&[], Some(b), "C"));
    assert_eq!(heap.find_method(c, &s("only_a")).unwrap().declaration.name.lexeme, "only_a");
    assert_eq!(heap.find_method(c, &s("both")).unwrap().arity(), 2);
    assert_eq!(heap.find_method(b, &s("both")).unwrap().arity(), 2);
    assert_eq!(heap.find_method(a, &s("both")).unwrap().arity(), 1);
    assert!(heap.find_method(a, &s("only_b")).is_none());
    assert!(heap.find_method(c, &s("nope")).is_none());
    assert!(heap.find_method(9, &s("both")).is_none());
}

#[test]
fn a_superclass_that_is_not_older_is_not_followed() {
    let mut heap = Heap::new();
    heap.add_class(class_with(&[], Some(1), "A"));
    heap.add_class(class_with(&[("m", &[])], Some(0), "B"));
    heap.add_class(class_with(&[], Some(2), "C"));
    assert!(heap.find_method(0, &s("m")).is_none());
    assert!(heap.find_method(2, &s("m")).is_none());
    assert!(heap.find_method(1, &s("m")).is_some());
}

#[test]
fn an_instance_keeps_its_fields() {
    let mut instance = LoxInstance::new(3);
    assert_eq!(instance.class, 3);
    assert!(instance.get(&s("x")).is_none());
    instance.set(&s("x"), number(1.0));
    instance.set(&s("y"), Value::BooleanValue(true));
    instance.set(&s("x"), number(2.0));
    assert_eq!(as_number(&instance.get(&s("x")).unwrap()), 2.0);
    assert!(matches!(instance.get(&s("y")), Some(Value::BooleanValue(true))));
}

#[test]
fn binding_makes_a_scope_that_holds_this() {
    let mut heap = three_scopes();
    let class = heap.add_class(class_with(&[], None, "A"));
    let instance = heap.add_instance(class);
    let first = method("init", &["a"], 1);
    let bound = first.bind(instance, &mut heap);
    assert_eq!(bound.closure, 3);
    assert_eq!(heap.environments.len(), 4);
    assert_eq!(heap.environments[3].parent, Some(1));
    assert!(matches!(heap.get_at(bound.closure, &s("this"), 0), Ok(Value::InstanceValue(i)) if i == instance));
    assert!(bound.is_initializer);
    assert_eq!(bound.arity(), 1);
    assert!(Rc::ptr_eq(&bound.declaration, &first.declaration));
    assert_eq!(first.closure, 1);
    let again = first.bind(instance, &mut heap);
    assert_eq!(again.closure, 4);
}

#[test]
fn a_property_is_a_field_or_else_a_bound_method() {
    let mut heap = Heap::new();
    heap.add_environment(Environment::new());
    let a = heap.add_class(class_with(&[("m", &[]), ("hidden", &[])], None, "A"));
    let b = heap.add_class(class_with(&[], Some(a), "B"));
    let instance = heap.add_instance(b);
    heap.write_field(instance, &s("x"), number(1.0)).unwrap();
    heap.write_field(instance, &s("hidden"), number(2.0)).unwrap();
    assert_eq!(as_number(&heap.read_property(instance, &s("x")).unwrap()), 1.0);
    assert_eq!(as_number(&heap.read_property(instance, &s("hidden")).unwrap()), 2.0);
    assert_eq!(heap.environments.len(), 1);
    match heap.read_property(instance, &s("m")).unwrap() {
        Value::Callable(Callable::Function(f)) => {
            assert_eq!(f.closure, 1);
            assert!(matches!(heap.get_at(f.closure, &s("this"), 0), Ok(Value::InstanceValue(i)) if i == instance));
        }
        other => panic!("no function: {:?}", other),
    }
    let error = heap.read_property(instance, &s("nope")).unwrap_err();
    assert_eq!(error.kind, LoxErrorKind::AttributeError);
    assert_eq!(heap.read_property(5, &s("x")).unwrap_err().kind, LoxErrorKind::RuntimeError);
    assert_eq!(heap.write_field(5, &s("x"), number(1.0)).unwrap_err().kind, LoxErrorKind::RuntimeError);
}

#[test]
fn a_recorder_keeps_the_lines_in_order() {
    let mut recorder = Recorder::new();
    assert!(recorder.outputted.is_empty());
    recorder.output_value(s("one"));
    recorder.output_value(s(""));
    recorder.output_value(s("three"));
    assert_eq!(recorder.outputted, vec!["one", "", "three"]);
}

#[test]
fn a_new_interpreter_has_one_scope_that_holds_the_clock() {
    let walker = TreeWalker::new();
    assert_eq!(walker.environment, 0);
    assert_eq!(walker.globals, 0);
    assert_eq!(walker.heap.environments.len(), 1);
    assert!(walker.heap.classes.is_empty());
    assert!(walker.heap.instances.is_empty());
    assert!(walker.locals.is_empty());
    assert!(walker.outputter.outputted.is_empty());
    assert!(matches!(walker.heap.get_at(0, &s("clock"), 0), Ok(Value::Callable(Callable::Clock))));
    let mut recorder = Recorder::new();
    recorder.output_value(s("before"));
    let walker = TreeWalker::new_from_outputter(recorder);
    assert_eq!(walker.outputter.outputted, vec!["before"]);
}

fn literal(n: f64) -> Expr {
    Expr::Literal {
        token: token(TokenType::Number, "n", 0),
        value: LiteralValue::NumberValue(n.to_bits()),
    }
}

fn print_of(e: Expr) -> Statement {
    Statement::PrintStatement { token: token(TokenType::Print, "print", 0), value: e }
}

fn variable(name: &str, id: u32) -> Expr {
    Expr::Variable { token: token(TokenType::Identifier, name, id) }
}

#[test]
fn statements_run_against_the_interpreter() {
    let unit = heap_unit();
    let mut walker = TreeWalker::new();
    let declaration = Statement::VarDeclStatement {
        token: token(TokenType::Identifier, "a", 1),
        initializer: Some(literal(4.0)),
    };
    assert!(matches!(walker.visit_statement(&declaration, &unit), Ok(Completion::Normal)));
    assert!(matches!(walker.visit_statement(&print_of(variable("a", 2)), &unit), Ok(Completion::Normal)));
    let returning = Statement::ReturnStatement {
        keyword: token(TokenType::Return, "return", 3),
        value: Some(variable("a", 4)),
    };
    match walker.visit_statement(&returning, &unit) {
        Ok(Completion::Return(v)) => assert_eq!(as_number(&v), 4.0),
        other => panic!("no return: {:?}", other),
    }
    let error = walker.visit_statement(&print_of(variable("b", 5)), &unit).unwrap_err();
    assert_eq!(error.kind, LoxErrorKind::NameError);
    assert_eq!(walker.outputter.outputted, vec!["4"]);
}

#[test]
fn a_variable_is_read_where_its_depth_says() {
    let unit = heap_unit();
    let mut walker = TreeWalker::new();
    walker.heap.define(0, &s("a"), number(0.0)).unwrap();
    let middle = {
        let mut scope = Environment::inside(0);
        scope.define(&s("a"), number(1.0));
        walker.heap.add_environment(scope)
    };
    let inner = {
        let mut scope = Environment::inside(middle);
        scope.define(&s("a"), number(2.0));
        walker.heap.add_environment(scope)
    };
    walker.environment = inner;
    walker.resolve(&token(TokenType::Identifier, "a", 10), 0);
    walker.resolve(&token(TokenType::Identifier, "a", 11), 1);
    walker.resolve(&token(TokenType::Identifier, "a", 12), 2);
    walker.resolve(&token(TokenType::Identifier, "a", 14), 3);
    for (id, expected) in [(10, 2.0), (11, 1.0), (12, 0.0), (13, 0.0)] {
        let value = walker.visit_expr(&variable("a", id), &unit, 10).unwrap();
        assert_eq!(as_number(&value), expected);
    }
    assert_eq!(walker.visit_expr(&variable("a", 14), &unit, 10).unwrap_err().kind, LoxErrorKind::RuntimeError);
    walker.resolve(&token(TokenType::Identifier, "clock", 15), 1);
    assert_eq!(walker.visit_expr(&variable("clock", 15), &unit, 10).unwrap_err().kind, LoxErrorKind::NameError);
    assert!(walker.visit_expr(&variable("clock", 16), &unit, 10).is_ok());
}

#[test]
fn a_block_runs_in_its_scope_and_restores_the_old_one() {
    let unit = heap_unit();
    let mut walker = TreeWalker::new();
    walker.heap.define(0, &s("a"), number(1.0)).unwrap();
    let mut scope = Environment::inside(0);
    scope.define(&s("b"), number(2.0));
    let scope = walker.heap.add_environment(scope);
    walker.resolve(&token(TokenType::Identifier, "b", 7), 0);
    let statements = vec![
        print_of(variable("a", 6)),
        print_of(variable("b", 7)),
        print_of(variable("nope", 8)),
        print_of(variable("a", 9)),
    ];
    let error = walker.execute_block(&statements, scope, &unit, 10).unwrap_err();
    assert_eq!(error.kind, LoxErrorKind::NameError);
    assert_eq!(walker.environment, 0);
    assert_eq!(walker.outputter.outputted, vec!["1", "2"]);
    let statements = vec![
        Statement::ReturnStatement { keyword: token(TokenType::Return, "return", 0), value: None },
        print_of(variable("a", 6)),
    ];
    assert!(matches!(walker.execute_block(&statements, scope, &unit, 10), Ok(Completion::Return(Value::NilValue))));
    assert_eq!(walker.environment, 0);
    assert!(matches!(walker.execute_block(&Vec::new(), 55, &unit, 0), Ok(Completion::Normal)));
    assert_eq!(walker.environment, 0);
}

#[test]
fn calling_a_value() {
    let unit = heap_unit();
    let mut walker = TreeWalker::new();
    let identity = {
        let declaration = FunDeclStatement {
            name: token(TokenType::Identifier, "id", 0),
            parameters: vec![token(TokenType::Identifier, "x", 1)],
            body: vec![Statement::ReturnStatement {
                keyword: token(TokenType::Return, "return", 2),
                value: Some(variable("x", 3)),
            }],
        };
        Function::new(Rc::new(declaration), 0, false)
    };
    walker.resolve(&token(TokenType::Identifier, "x", 3), 0);
    let result = walker.call_function(&identity, vec![number(42.0)], &unit, 10).unwrap();
    assert_eq!(as_number(&result), 42.0);
    let result = walker
        .call_value(Value::Callable(Callable::Function(identity.clone())), vec![Value::StringValue(s("v"))], &unit, 10)
        .unwrap();
    assert!(matches!(result, Value::StringValue(text) if text == "v"));
    assert_eq!(walker.environment, 0);
    assert_eq!(walker.heap.environments.len(), 3);
    let error = walker
        .call_value(Value::Callable(Callable::Function(identity.clone())), Vec::new(), &unit, 10)
        .unwrap_err();
    assert_eq!(error.kind, LoxErrorKind::TypeError);
    let error = walker.call_function(&identity, Vec::new(), &unit, 10).unwrap_err();
    assert_eq!(error.message, "Got wrong number of arguments");
    let error = walker.call_value(number(1.0), Vec::new(), &unit, 10).unwrap_err();
    assert_eq!(error.message, "expression is not callable");
    let error = walker.call_value(Value::ClassValue(3), Vec::new(), &unit, 10).unwrap_err();
    assert_eq!(error.kind, LoxErrorKind::RuntimeError);
    let error = walker
        .call_value(Value::Callable(Callable::Function(identity)), vec![number(1.0)], &unit, 3)
        .unwrap_err();
    assert_eq!(error.message, "evaluation budget exhausted");
    assert!(matches!(
        walker.call_value(Value::Callable(Callable::Clock), Vec::new(), &unit, 1),
        Ok(Value::NumberValue(_))
    ));
}

#[test]
fn rendering() {
    let unit = heap_unit();
    let mut walker = TreeWalker::new();
    let class = {
        let class = LoxClass::new(s("Point"), Table::new(), None);
        walker.heap.add_class(class)
    };
    let instance = walker.heap.add_instance(class);
    assert_eq!(walker.render(&number(1.25), &unit), "1.25");
    assert_eq!(walker.render(&Value::StringValue(s("raw \"text\"")), &unit), "raw \"text\"");
    assert_eq!(walker.render(&Value::BooleanValue(true), &unit), "true");
    assert_eq!(walker.render(&Value::BooleanValue(false), &unit), "false");
    assert_eq!(walker.render(&Value::NilValue, &unit), "nil");
    assert_eq!(walker.render(&Value::Callable(Callable::Clock), &unit), "<native fn clock>");
    assert_eq!(walker.render(&Value::Callable(Callable::Function(method("go", &[], 0))), &unit), "<fn go>");
    assert_eq!(walker.render(&Value::ClassValue(class), &unit), "<class Point>");
    assert_eq!(walker.render(&Value::InstanceValue(instance), &unit), "<Point instance>");
    assert_eq!(walker.render(&Value::ClassValue(9), &unit), "<class >");
    assert_eq!(walker.render(&Value::InstanceValue(9), &unit), "< instance>");
}
