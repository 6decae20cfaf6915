use rlox::ast::Statement;
use rlox::error::{LoxError, LoxErrorKind};
use rlox::interpreter::Interpreter;
use rlox::number::{FloatUnit, NumberOp};
use rlox::parse::Parser;
use rlox::scan::Scanner;
use rlox::tree_walker::{Completion, TreeWalker};

fn unit() -> FloatUnit<
    impl Fn(String) -> Option<u64>,
    impl Fn(NumberOp, u64, u64) -> u64,
    impl Fn(u64) -> String,
> {
    FloatUnit {
        parse: |text: String| text.parse::<f64>().ok().map(f64::to_bits),
        combine: |op: NumberOp, left: u64, right: u64| {
            let l = f64::from_bits(left);
            let r = f64::from_bits(right);
            let result = match op {
                NumberOp::Add => l + r,
                NumberOp::Subtract => l - r,
                NumberOp::Multiply => l * r,
                NumberOp::Divide => l / r,
            };
            result.to_bits()
        },
        render: |number: u64| format!("{}", f64::from_bits(number)),
    }
}

fn run(source: &str) -> (Vec<String>, Vec<LoxError>) {
    let mut interpreter = Interpreter::new();
    let errors = interpreter.run(&source.to_string(), &unit());
    assert_eq!(interpreter.had_error, !errors.is_empty());
    (interpreter.tree_walker.outputter.outputted, errors)
}

fn prints(source: &str, expected: &[&str]) {
    let (output, errors) = run(source);
    assert!(errors.is_empty(), "errors: {:?}", errors);
    let expected: Vec<String> = expected.iter().map(|line| line.to_string()).collect();
    assert_eq!(output, expected, "{}", source);
}

fn fails(source: &str, kind: LoxErrorKind, message: &str, printed_before: &[&str]) {
    let (output, errors) = run(source);
    assert_eq!(errors.len(), 1, "{}", source);
    assert_eq!(errors[0].kind, kind, "{}", source);
    assert_eq!(errors[0].message, message, "{}", source);
    let expected: Vec<String> = printed_before.iter().map(|line| line.to_string()).collect();
    assert_eq!(output, expected, "{}", source);
}

#[test]
fn arithmetic_and_precedence() {
    prints("print 1 + 2 * 3;", &["7"]);
    prints("print (1 + 2) * 3;", &["9"]);
    prints("print \"a\" + \"b\";", &["ab"]);
}

#[test]
fn closure_captures_the_variable() {
    prints(
        "var a = \"global\";\n{ fun show() { print a; } show(); var a = \"local\"; show(); }",
        &["global", "global"],
    );
}

#[test]
fn recursive_function() {
    prints(
        "fun fib(n){ if (n<2) return n; return fib(n-1)+fib(n-2); }\nprint fib(10);",
        &["55"],
    );
}

#[test]
fn class_with_method_and_fields() {
    prints(
        "class C { init(x){ this.x = x; } get(){ return this.x; } }\nvar c = C(7); print c.get();",
        &["7"],
    );
}

#[test]
fn inheritance_and_super() {
    prints(
        "class A { hi(){ print \"A\"; } }\nclass B < A { hi(){ super.hi(); print \"B\"; } }\nB().hi();",
        &["A", "B"],
    );
}

#[test]
fn errors_are_reported_by_kind() {
    fails("var x = 1; x();", LoxErrorKind::TypeError, "expression is not callable", &[]);
    fails("print y;", LoxErrorKind::NameError, "Tried to get a name that is not defined", &[]);
    fails("print 1 + \"x\";", LoxErrorKind::TypeError, "unsupported operand types", &[]);
    fails(
        "return 1;",
        LoxErrorKind::ResolvingError,
        "Can't have a return statement in top level code",
        &[],
    );
    fails("class C < C {}", LoxErrorKind::ResolvingError, "A class can't inherit from itself", &[]);
}

#[test]
fn every_kind_of_error_can_be_met() {
    fails("print 1 @ 2;", LoxErrorKind::ScannerError, "unexpected character", &[]);
    fails("print 1\n+;", LoxErrorKind::SyntaxError(2), "invalid syntax", &[]);
    fails("print -\"a\";", LoxErrorKind::TypeError, "unsupported operand types", &[]);
    fails("a = 1;", LoxErrorKind::NameError, "Tried to assign to a name that is not defined", &[]);
    fails("print this;", LoxErrorKind::ResolvingError, "Can't use 'this' outside of a class", &[]);
    fails("print 1.x;", LoxErrorKind::AttributeError, "only instances have attributes", &[]);
    let mut interpreter = Interpreter::new();
    interpreter.tree_walker.budget = 3;
    let errors = interpreter.run(&"print 1 + (2 + (3 + 4));".to_string(), &unit());
    assert_eq!(errors.len(), 1);
    assert_eq!(errors[0].kind, LoxErrorKind::RuntimeError);
    assert_eq!(errors[0].message, "evaluation budget exhausted");
}

#[test]
fn error_kinds_have_names() {
    let kinds = [
        (LoxErrorKind::ScannerError, "ScannerError"),
        (LoxErrorKind::SyntaxError(12), "SyntaxError: line 12"),
        (LoxErrorKind::TypeError, "TypeError"),
        (LoxErrorKind::NameError, "NameError"),
        (LoxErrorKind::RuntimeError, "RuntimeError"),
        (LoxErrorKind::ResolvingError, "ResolvingError"),
        (LoxErrorKind::AttributeError, "AttributeError"),
    ];
    for (kind, name) in kinds {
        assert_eq!(LoxError { message: "", kind }.describe(), name);
    }
}

#[test]
fn what_was_printed_before_an_error_stays() {
    fails(
        "print 1; print 2; print nope; print 3;",
        LoxErrorKind::NameError,
        "Tried to get a name that is not defined",
        &["1", "2"],
    );
}

#[test]
fn all_syntax_errors_are_reported_and_nothing_runs() {
    let (output, errors) = run("print 1; print ; var ; print 2;");
    assert!(output.is_empty());
    assert_eq!(errors.len(), 2);
}

#[test]
fn all_resolving_errors_are_reported_and_nothing_runs() {
    let (output, errors) = run("print 1; return; print this;");
    assert!(output.is_empty());
    assert_eq!(errors.len(), 2);
}

#[test]
fn numbers_print_as_the_unit_renders_them() {
    prints("print 0; print 2.5; print 10 / 4; print 1 / 3; print -0.5;", &["0", "2.5", "2.5", "0.3333333333333333", "-0.5"]);
    prints("print 1 / 0; print -1 / 0; print 100000000000000000000;", &["inf", "-inf", "100000000000000000000"]);
    prints("print 7 - 10; print 2 * 3 * 4; print 1 - 2 - 3; print 8 / 4 / 2;", &["-3", "24", "-4", "1"]);
}

#[test]
fn values_print_by_their_kind() {
    prints("print \"text\"; print true; print false; print nil;", &["text", "true", "false", "nil"]);
    prints("fun f() {} print f; print clock;", &["<fn f>", "<native fn clock>"]);
    prints("class A { m() {} } print A; print A(); print A().m;", &["<class A>", "<A instance>", "<fn m>"]);
    prints("print \"\";", &[""]);
}

#[test]
fn not_negates_truth() {
    prints("print !false; print !nil;", &["true", "true"]);
    prints(
        "print !true; print !0; print !1; print !\"\"; print !\"a\";",
        &["false", "false", "false", "false", "false"],
    );
    prints("fun f() {} class A {} print !f; print !A; print !A(); print !clock;", &["false", "false", "false", "false"]);
    prints("print !!nil; print !!0;", &["false", "true"]);
}

#[test]
fn zero_and_the_empty_string_count_as_true() {
    prints("if (0) print \"yes\"; else print \"no\";", &["yes"]);
    prints("if (\"\") print \"yes\"; else print \"no\";", &["yes"]);
    prints("if (nil) print \"yes\"; else print \"no\";", &["no"]);
    prints("if (false) print \"yes\"; else print \"no\";", &["no"]);
    prints("if (false) print \"yes\";", &[]);
}

#[test]
fn equality_within_a_kind() {
    prints("print 1 == 1; print 1 == 2; print 1 != 2; print 1 != 1;", &["true", "false", "true", "false"]);
    prints("print \"a\" == \"a\"; print \"a\" == \"b\"; print \"\" == \"\";", &["true", "false", "true"]);
    prints("print true == true; print true == false; print false == false;", &["true", "false", "true"]);
    prints("print nil == nil; print nil != nil;", &["true", "false"]);
    prints("print 0.1 + 0.2 == 0.3; print 0.5 + 0.25 == 0.75;", &["false", "true"]);
}

#[test]
fn equality_across_kinds_is_false() {
    prints(
        "print 1 == \"1\"; print 0 == false; print nil == false; print \"\" == nil; print 1 == true;",
        &["false", "false", "false", "false", "false"],
    );
    prints("print 1 != \"1\"; print nil != false;", &["true", "true"]);
}

#[test]
fn a_nan_equals_nothing() {
    prints("var n = 0 / 0; print n == n; print n != n; print n < 1; print n >= 1;", &["false", "true", "false", "false"]);
    prints("print 0 == -0;", &["true"]);
}

#[test]
fn functions_classes_and_instances_equal_nothing() {
    prints(
        "fun f() {} class A {} var a = A(); print f == f; print A == A; print a == a; print clock == clock;",
        &["false", "false", "false", "false"],
    );
}

#[test]
fn comparisons_take_numbers() {
    prints(
        "print 1 < 2; print 2 < 1; print 1 <= 1; print 2 > 1; print 1 >= 2; print -1 < 0;",
        &["true", "false", "true", "true", "false", "true"],
    );
    for source in ["1 < \"2\";", "\"a\" < \"b\";", "nil > 1;", "true >= false;", "1 <= nil;"] {
        fails(source, LoxErrorKind::TypeError, "unsupported operand types", &[]);
    }
}

#[test]
fn arithmetic_takes_numbers_and_plus_strings_too() {
    for source in ["1 - \"a\";", "\"a\" * 2;", "nil / 1;", "\"a\" - \"b\";", "1 + nil;", "\"a\" + 1;", "true + true;", "-nil;", "-true;"] {
        fails(source, LoxErrorKind::TypeError, "unsupported operand types", &[]);
    }
    prints("print \"con\" + \"cat\" + \"enate\";", &["concatenate"]);
    prints("print -(1 + 2); print --3; print -0 == 0;", &["-3", "3", "true"]);
}

#[test]
fn operands_are_evaluated_from_left_to_right() {
    prints(
        "fun a() { print \"a\"; return 1; } fun b() { print \"b\"; return 2; } print a() + b() * a();",
        &["a", "b", "a", "3"],
    );
    fails(
        "fun a() { print \"a\"; return 1; } a() + nope + a();",
        LoxErrorKind::NameError,
        "Tried to get a name that is not defined",
        &["a"],
    );
}

#[test]
fn logical_operators_give_an_operand() {
    prints("print 1 or 2; print nil or 2; print false or nil; print nil or false;", &["1", "2", "nil", "false"]);
    prints("print 1 and 2; print nil and 2; print false and nil; print 0 and \"x\";", &["2", "nil", "false", "x"]);
    prints("print nil or nil or 3; print 1 and 2 and 3; print nil and 1 or 2;", &["3", "3", "2"]);
}

#[test]
fn logical_operators_skip_the_right_side_where_the_left_decides() {
    prints(
        "fun loud() { print \"called\"; return true; } print false and loud(); print true or loud();",
        &["false", "true"],
    );
    prints(
        "fun loud() { print \"called\"; return true; } print true and loud(); print false or loud();",
        &["called", "true", "called", "true"],
    );
    prints("var a = 1; false and (a = 2); true or (a = 3); print a;", &["1"]);
    prints("print nil and nope; print 1 or nope;", &["nil", "1"]);
}

#[test]
fn variables() {
    prints("var a; print a; a = 1; print a; var a = 2; print a;", &["nil", "1", "2"]);
    prints("var a = 1; var b = a + 1; print b; print a = 5; print a;", &["2", "5", "5"]);
    prints("var a = 1; { var a = 2; print a; a = 3; print a; } print a;", &["2", "3", "1"]);
    prints("var a = 1; { a = 2; } print a;", &["2"]);
    prints("var a = 1; { var b = a; { var c = b; a = c + 1; } } print a;", &["2"]);
}

#[test]
fn an_undefined_global_is_no_target() {
    fails("print 1; a = 1;", LoxErrorKind::NameError, "Tried to assign to a name that is not defined", &["1"]);
    fails("{ a = 1; }", LoxErrorKind::NameError, "Tried to assign to a name that is not defined", &[]);
}

#[test]
fn a_global_may_be_defined_after_the_function_that_uses_it() {
    prints("fun f() { return g(); } fun g() { return 1; } print f();", &["1"]);
    fails(
        "fun f() { return later; } f();",
        LoxErrorKind::NameError,
        "Tried to get a name that is not defined",
        &[],
    );
}

#[test]
fn control_flow() {
    prints("var i = 0; while (i < 3) { print i; i = i + 1; }", &["0", "1", "2"]);
    prints("var i = 0; while (i < 0) { print i; }", &[]);
    prints("for (var i = 0; i < 3; i = i + 1) print i;", &["0", "1", "2"]);
    prints("var i = 5; for (; i > 3;) { print i; i = i - 1; } print i;", &["5", "4", "3"]);
    prints("var n = 0; for (var i = 1; i <= 10; i = i + 1) n = n + i; print n;", &["55"]);
    prints("if (1 < 2) { print \"a\"; } else { print \"b\"; } if (nil) print \"c\"; else if (true) print \"d\";", &["a", "d"]);
}

#[test]
fn the_variable_of_a_for_loop_is_local_to_it() {
    fails(
        "for (var i = 0; i < 1; i = i + 1) {} print i;",
        LoxErrorKind::NameError,
        "Tried to get a name that is not defined",
        &[],
    );
}

#[test]
fn functions() {
    prints("fun f() {} print f();", &["nil"]);
    prints("fun f() { return; } print f();", &["nil"]);
    prints("fun add(a, b) { return a + b; } print add(1, 2); print add(\"x\", \"y\");", &["3", "xy"]);
    prints("fun f() { print 1; return 2; print 3; } print f();", &["1", "2"]);
    prints("fun f() { while (true) { if (true) { return \"out\"; } } } print f();", &["out"]);
    prints("fun f(a) { a = a + 1; return a; } var a = 1; print f(a); print a;", &["2", "1"]);
    prints("fun f(a, a2) { var b = a; { var c = b; return c + a2; } } print f(1, 2);", &["3"]);
}

#[test]
fn a_function_gives_back_what_it_is_given() {
    prints(
        "fun id(x) { return x; } class A {} print id(1); print id(\"s\"); print id(nil); print id(true); print id(id); print id(A); print id(A()); print id(clock);",
        &["1", "s", "nil", "true", "<fn id>", "<class A>", "<A instance>", "<native fn clock>"],
    );
    prints("{ fun id(x) { return x; } print id(2.5) == 2.5; }", &["true"]);
}

#[test]
fn functions_are_values() {
    prints("fun f() { return 1; } var g = f; print g(); fun h(k) { return k(); } print h(f);", &["1", "1"]);
    prints("fun outer() { fun inner() { return \"in\"; } return inner; } print outer()();", &["in"]);
}

#[test]
fn closures_keep_their_scope() {
    prints(
        "fun counter() { var n = 0; fun next() { n = n + 1; return n; } return next; } var a = counter(); var b = counter(); print a(); print a(); print b(); print a();",
        &["1", "2", "1", "3"],
    );
    prints(
        "var f; { var local = \"kept\"; fun g() { return local; } f = g; } print f();",
        &["kept"],
    );
    prints(
        "var f; var g; { var shared = 0; fun inc() { shared = shared + 1; } fun get() { return shared; } f = inc; g = get; } f(); f(); print g();",
        &["2"],
    );
}

#[test]
fn each_call_has_a_scope_of_its_own() {
    prints(
        "fun f(n) { if (n > 0) f(n - 1); print n; } f(2);",
        &["0", "1", "2"],
    );
    prints("fun fact(n) { if (n <= 1) return 1; return n * fact(n - 1); } print fact(10);", &["3628800"]);
}

#[test]
fn a_call_takes_as_many_arguments_as_parameters() {
    for source in ["fun f(a) {} f();", "fun f(a) {} f(1, 2);", "fun f() {} f(1);", "clock(1);"] {
        fails(source, LoxErrorKind::TypeError, "Got wrong number of arguments", &[]);
    }
    for source in ["class A {} A(1);", "class A { init(a, b) {} } A(1);", "class A { init(a) {} } A();"] {
        fails(source, LoxErrorKind::TypeError, "Got wrong number of arguments", &[]);
    }
}

#[test]
fn only_functions_and_classes_are_called() {
    for source in ["1();", "\"f\"();", "nil();", "true();", "class A {} A()();"] {
        fails(source, LoxErrorKind::TypeError, "expression is not callable", &[]);
    }
}

#[test]
fn arguments_are_evaluated_before_the_call_is_checked() {
    fails(
        "fun loud() { print \"arg\"; return 1; } nil(loud());",
        LoxErrorKind::TypeError,
        "expression is not callable",
        &["arg"],
    );
    fails(
        "fun loud() { print \"arg\"; return 1; } fun f() {} f(loud(), loud());",
        LoxErrorKind::TypeError,
        "Got wrong number of arguments",
        &["arg", "arg"],
    );
}

#[test]
fn the_clock_gives_a_number() {
    prints("print clock() > 1600000000; print clock() < 100000000000; print clock() == clock() or true;", &["true", "true", "true"]);
    prints("var t = clock(); print t - t;", &["0"]);
}

#[test]
fn fields() {
    prints("class A {} var a = A(); a.x = 1; a.y = \"two\"; print a.x; print a.y; a.x = a.x + 1; print a.x;", &["1", "two", "2"]);
    prints("class A {} var a = A(); print a.x = 5;", &["5"]);
    prints("class A {} var a = A(); var b = a; b.x = 1; print a.x;", &["1"]);
    prints("class A {} var a = A(); var b = A(); a.x = 1; b.x = 2; print a.x; print b.x;", &["1", "2"]);
    prints("class A {} var a = A(); a.self = a; a.self.self.x = 3; print a.x;", &["3"]);
    fails(
        "class A {} print A().missing;",
        LoxErrorKind::AttributeError,
        "Instance has no attribute with that name",
        &[],
    );
}

#[test]
fn only_instances_have_properties() {
    for source in ["1.x;", "\"s\".x;", "nil.x;", "class A {} A.x;", "fun f() {} f.x;", "true.x = 1;", "class A {} A.x = 1;"] {
        fails(source, LoxErrorKind::AttributeError, "only instances have attributes", &[]);
    }
}

#[test]
fn the_object_of_a_write_is_checked_before_the_value_is_evaluated() {
    fails(
        "fun loud() { print \"value\"; return 1; } nil.x = loud();",
        LoxErrorKind::AttributeError,
        "only instances have attributes",
        &[],
    );
    prints(
        "class A {} fun obj() { print \"object\"; return A(); } fun val() { print \"value\"; return 1; } obj().x = val();",
        &["object", "value"],
    );
}

#[test]
fn methods() {
    prints("class A { m() { return 1; } } print A().m();", &["1"]);
    prints("class A { m(x) { return x + 1; } } var a = A(); print a.m(1); print a.m(a.m(1));", &["2", "3"]);
    prints("class A { name() { return this.n; } } var a = A(); a.n = \"me\"; print a.name();", &["me"]);
    prints("class A { m() { return this; } } var a = A(); a.x = 1; print a.m().x; print a.m().m().x;", &["1", "1"]);
    prints("class A { m() { return 1; } m() { return 2; } } print A().m();", &["2"]);
}

#[test]
fn a_method_is_bound_when_it_is_read() {
    prints(
        "class A { get() { return this.x; } } var a = A(); a.x = 1; var m = a.get; a.x = 2; print m();",
        &["2"],
    );
    prints(
        "class A { get() { return this.x; } } var a = A(); var b = A(); a.x = \"a\"; b.x = \"b\"; b.get = a.get; print b.get();",
        &["a"],
    );
}

#[test]
fn a_field_hides_a_method() {
    prints(
        "class A { m() { return \"method\"; } } var a = A(); fun f() { return \"field\"; } a.m = f; print a.m();",
        &["field"],
    );
}

#[test]
fn initializers() {
    prints("class A { init() { this.x = 1; } } print A().x;", &["1"]);
    prints("class A { init(a, b) { this.s = a + b; } } print A(1, 2).s;", &["3"]);
    prints("class A { init() { print \"made\"; } } var a = A(); print a;", &["made", "<A instance>"]);
    prints("class A { init() { this.x = 1; return; } } print A().x;", &["1"]);
    prints("class A { init() { this.x = 1; } } var a = A(); a.x = 2; print a.init(); print a.x;", &["<A instance>", "1"]);
    prints("class A { init() { if (true) return; this.x = 1; } } print A();", &["<A instance>"]);
    fails(
        "class A { init() { this.x = nope; } } A();",
        LoxErrorKind::NameError,
        "Tried to get a name that is not defined",
        &[],
    );
}

#[test]
fn inheritance() {
    prints("class A { m() { return \"A\"; } } class B < A {} print B().m();", &["A"]);
    prints("class A { m() { return \"A\"; } } class B < A { m() { return \"B\"; } } print B().m(); print A().m();", &["B", "A"]);
    prints("class A { m() { return \"A\"; } } class B < A {} class C < B {} print C().m();", &["A"]);
    prints(
        "class A { m() { return \"A\"; } } class B < A { m() { return \"B\" + super.m(); } } class C < B { m() { return \"C\" + super.m(); } } print C().m();",
        &["CBA"],
    );
    prints(
        "class A { who() { return this.name; } } class B < A { init() { this.name = \"b\"; } } print B().who();",
        &["b"],
    );
    prints(
        "class A { m() { return this.n(); } n() { return \"A.n\"; } } class B < A { n() { return \"B.n\"; } t() { return super.m(); } } print B().t();",
        &["B.n"],
    );
}

#[test]
fn a_class_takes_the_arguments_of_its_own_initializer() {
    prints("class A { init(x) { this.x = x; } } class B < A {} print B();", &["<B instance>"]);
    prints(
        "class A { init(x) { this.x = x; } } class B < A { init(x, y) { super.init(x); this.y = y; } } var b = B(1, 2); print b.x + b.y;",
        &["3"],
    );
}

#[test]
fn super_is_the_superclass_of_the_class_of_the_method() {
    prints(
        "class A { m() { return \"A\"; } } class B < A { m() { return \"B\"; } t() { return super.m(); } } class C < B { m() { return \"C\"; } } print C().t();",
        &["A"],
    );
    prints(
        "class A { m() { return \"A\"; } } class B < A { get() { return super.m; } } var f = B().get(); print f();",
        &["A"],
    );
    fails(
        "class A {} class B < A { t() { return super.nope(); } } B().t();",
        LoxErrorKind::AttributeError,
        "superclass has no method with that name",
        &[],
    );
}

#[test]
fn a_superclass_is_a_class() {
    for source in ["var A = 1; class B < A {}", "fun A() {} class B < A {}", "var A; class B < A {}"] {
        fails(source, LoxErrorKind::TypeError, "Superclass must be a class", &[]);
    }
    fails(
        "class B < Nope {}",
        LoxErrorKind::NameError,
        "Tried to get a name that is not defined",
        &[],
    );
}

#[test]
fn classes_in_local_scopes() {
    prints(
        "{ class A { m() { return \"A\"; } } class B < A { m() { return super.m() + \"B\"; } } print B().m(); }",
        &["AB"],
    );
    prints(
        "fun make() { class P { hi() { return \"hi\"; } } return P; } var c = make(); print c().hi();",
        &["hi"],
    );
}

#[test]
fn a_class_may_refer_to_itself() {
    prints("class A { make() { return A(); } } print A().make();", &["<A instance>"]);
    prints("{ class A { make() { return A(); } } print A().make(); }", &["<A instance>"]);
}

#[test]
fn the_scope_is_restored_after_an_error_in_a_block() {
    let mut interpreter = Interpreter::new();
    let unit = unit();
    let errors = interpreter.run(&"var a = 1; { var a = 2; { var a = 3; nope; } }".to_string(), &unit);
    assert_eq!(errors.len(), 1);
    assert_eq!(interpreter.tree_walker.environment, interpreter.tree_walker.globals);
    assert!(interpreter.run(&"print a;".to_string(), &unit).is_empty());
    assert_eq!(interpreter.tree_walker.outputter.outputted, vec!["1"]);
    let errors = interpreter.run(&"fun f() { var a = 4; nope(); } f();".to_string(), &unit);
    assert_eq!(errors.len(), 1);
    assert_eq!(interpreter.tree_walker.environment, interpreter.tree_walker.globals);
}

#[test]
fn definitions_live_on_from_run_to_run() {
    let mut interpreter = Interpreter::new();
    let unit = unit();
    assert!(interpreter.run(&"var a = 1; fun inc() { a = a + 1; return a; }".to_string(), &unit).is_empty());
    assert!(interpreter.run(&"class P { init(x) { this.x = x; } }".to_string(), &unit).is_empty());
    assert!(interpreter.run(&"var p = P(inc());".to_string(), &unit).is_empty());
    assert!(!interpreter.had_error);
    assert_eq!(interpreter.run(&"print q;".to_string(), &unit).len(), 1);
    assert!(interpreter.had_error);
    interpreter.had_error = false;
    assert!(interpreter.run(&"print p.x + inc();".to_string(), &unit).is_empty());
    assert_eq!(interpreter.tree_walker.outputter.outputted, vec!["5"]);
}

#[test]
fn local_depths_stay_valid_from_run_to_run() {
    let mut interpreter = Interpreter::new();
    let unit = unit();
    assert!(interpreter
        .run(&"fun make() { var n = 0; fun next() { n = n + 1; return n; } return next; }".to_string(), &unit)
        .is_empty());
    assert!(interpreter.run(&"var a = make();".to_string(), &unit).is_empty());
    assert!(interpreter.run(&"{ var n = 10; print a() + n; }".to_string(), &unit).is_empty());
    assert!(interpreter.run(&"print a();".to_string(), &unit).is_empty());
    assert_eq!(interpreter.tree_walker.outputter.outputted, vec!["11", "2"]);
}

#[test]
fn token_ids_go_on_from_run_to_run() {
    let mut interpreter = Interpreter::new();
    let unit = unit();
    interpreter.run(&"print 1;".to_string(), &unit);
    assert_eq!(interpreter.scanner.next_id, 4);
    interpreter.run(&"print 1 @".to_string(), &unit);
    assert_eq!(interpreter.scanner.next_id, 6);
    interpreter.run(&"print ;".to_string(), &unit);
    assert_eq!(interpreter.scanner.next_id, 9);
}

#[test]
fn the_budget_bounds_the_depth() {
    let unit = unit();
    let mut interpreter = Interpreter::new();
    assert_eq!(interpreter.tree_walker.budget, u64::MAX);
    interpreter.tree_walker.budget = 100;
    let errors = interpreter.run(&"fun f(n) { return f(n + 1); } f(0);".to_string(), &unit);
    assert_eq!(errors.len(), 1);
    assert_eq!(errors[0].kind, LoxErrorKind::RuntimeError);
    assert_eq!(errors[0].message, "evaluation budget exhausted");
    assert_eq!(interpreter.tree_walker.environment, interpreter.tree_walker.globals);
    let errors = interpreter.run(
        &"var depth = 0; fun g(n) { depth = n; return g(n + 1); } g(1);".to_string(),
        &unit,
    );
    assert_eq!(errors.len(), 1);
    assert!(interpreter.run(&"print depth;".to_string(), &unit).is_empty());
    assert_eq!(interpreter.tree_walker.outputter.outputted, vec!["24"]);
}

#[test]
fn a_loop_runs_as_long_as_it_likes_within_the_budget() {
    let unit = unit();
    let mut interpreter = Interpreter::new();
    interpreter.tree_walker.budget = 6;
    let errors = interpreter.run(&"var i = 0; while (i < 3000) { i = i + 1; } print i;".to_string(), &unit);
    assert!(errors.is_empty());
    assert_eq!(interpreter.tree_walker.outputter.outputted, vec!["3000"]);
    interpreter.tree_walker.budget = 5;
    let errors = interpreter.run(&"while (i < 4000) { i = i + 1; }".to_string(), &unit);
    assert_eq!(errors.len(), 1);
    assert_eq!(errors[0].message, "evaluation budget exhausted");
}

#[test]
fn a_budget_of_two_runs_a_print_of_a_literal() {
    let unit = unit();
    let mut interpreter = Interpreter::new();
    interpreter.tree_walker.budget = 2;
    assert!(interpreter.run(&"print 1;".to_string(), &unit).is_empty());
    interpreter.tree_walker.budget = 1;
    assert_eq!(interpreter.run(&"print 1;".to_string(), &unit).len(), 1);
    interpreter.tree_walker.budget = 0;
    assert_eq!(interpreter.run(&"print 1;".to_string(), &unit).len(), 1);
    assert!(interpreter.run(&"".to_string(), &unit).is_empty());
}

#[test]
fn the_unit_computes_every_number() {
    let counting = FloatUnit {
        parse: |text: String| Some(text.len() as u64),
        combine: |op: NumberOp, left: u64, right: u64| match op {
            NumberOp::Add => left + right,
            NumberOp::Subtract => left - right,
            NumberOp::Multiply => left * right,
            NumberOp::Divide => left / right,
        },
        render: |number: u64| format!("#{}", number),
    };
    let mut interpreter = Interpreter::new();
    let errors = interpreter.run(
        &"print 22; print 333 + 1; print 55555 - 22; print 333 * 4444; print 666666 / 22;".to_string(),
        &counting,
    );
    assert!(errors.is_empty());
    assert_eq!(interpreter.tree_walker.outputter.outputted, vec!["#2", "#4", "#3", "#12", "#3"]);
}

#[test]
fn a_text_that_would_run_out_of_token_ids_is_not_scanned() {
    let unit = unit();
    let mut interpreter = Interpreter::new();
    interpreter.scanner.next_id = u32::MAX - 9;
    let errors = interpreter.run(&"print 12;".to_string(), &unit);
    assert_eq!(errors.len(), 1);
    assert_eq!(errors[0].kind, LoxErrorKind::ScannerError);
    assert_eq!(errors[0].message, "source text too long");
    assert!(interpreter.had_error);
    assert_eq!(interpreter.scanner.next_id, u32::MAX - 9);
    assert!(interpreter.tree_walker.outputter.outputted.is_empty());
    interpreter.scanner.next_id = u32::MAX - 10;
    assert!(interpreter.run(&"print 12;".to_string(), &unit).is_empty());
    assert_eq!(interpreter.scanner.next_id, u32::MAX - 6);
    assert_eq!(interpreter.tree_walker.outputter.outputted, vec!["12"]);
}

#[test]
fn a_return_at_the_top_ends_the_run_without_an_error() {
    let unit = unit();
    let mut scanner = Scanner::new();
    scanner.scan(&"print 1; return 2; print 3;".to_string(), &unit).unwrap();
    let mut parser = Parser::new();
    let statements: Vec<Statement> = parser.parse(&scanner.tokens).unwrap();
    let mut walker = TreeWalker::new();
    assert!(matches!(walker.visit_statement(&statements[0], &unit), Ok(Completion::Normal)));
    assert!(matches!(walker.visit_statement(&statements[1], &unit), Ok(Completion::Return(_))));
    assert_eq!(walker.outputter.outputted, vec!["1"]);
}

#[test]
fn longer_computations() {
    prints(
        "fun fib(n) { if (n < 2) return n; return fib(n - 1) + fib(n - 2); } print fib(20);",
        &["6765"],
    );
    prints(
        "var sum = 0; for (var i = 0; i < 20000; i = i + 1) { sum = sum + i; } print sum;",
        &["199990000"],
    );
    prints(
        "class Counter { init() { this.n = 0; } inc() { this.n = this.n + 1; return this; } } var c = Counter(); for (var i = 0; i < 5000; i = i + 1) c.inc(); print c.n;",
        &["5000"],
    );
    prints(
        "var s = \"\"; var i = 0; while (i < 200) { s = s + \"ab\"; i = i + 1; } print s == s + \"\"; print s != s + \"c\";",
        &["true", "true"],
    );
}

#[test]
fn functions_declared_in_a_loop() {
    prints("for (var i = 0; i < 3; i = i + 1) { fun f() { print i; } f(); }", &["0", "1", "2"]);
    prints(
        "var a; var b; for (var i = 0; i < 2; i = i + 1) { fun f() { return i; } if (i == 0) a = f; else b = f; } print a(); print b();",
        &["2", "2"],
    );
    prints(
        "var a; var b; for (var i = 0; i < 2; i = i + 1) { var j = i; fun f() { return j; } if (i == 0) a = f; else b = f; } print a(); print b();",
        &["0", "1"],
    );
}

#[test]
fn scoping() {
    prints(
        "var a = \"ga\"; var b = \"gb\"; var c = \"gc\"; { var a = \"oa\"; var b = \"ob\"; { var a = \"ia\"; print a; print b; print c; } print a; print b; print c; } print a; print b; print c;",
        &["ia", "ob", "gc", "oa", "ob", "gc", "ga", "gb", "gc"],
    );
    fails(
        "var a = 1; { var a = a + 1; print a; }",
        LoxErrorKind::ResolvingError,
        "Can't read local variable in its own initializer",
        &[],
    );
}
