use monkey::environment::Environment;
use monkey::evaluator::eval;
use monkey::object::Object;
use monkey::parser::parse;

fn run(env: &mut Environment, input: &str) -> String {
    match parse(input) {
        Ok(node) => match eval(node, env) {
            Ok(value) => value.to_string(),
            Err(err) => err.to_string(),
        },
        Err(e) => panic!("Parsing Error: {:#?}", e),
    }
}

fn apply_test(test_case: &[(&str, &str)]) {
    let mut env = Environment::new();
    for (input, expected) in test_case {
        assert_eq!(*expected, run(&mut env, input), "input: {}", input);
    }
}

#[test]
fn test_integer_expressions() {
    let test_case = [
        ("5", "5"),
        ("10", "10"),
        ("-5", "-5"),
        ("-10", "-10"),
        ("5 + 5 + 5 + 5 - 10", "10"),
        ("2 * 2 * 2 * 2 * 2", "32"),
        ("-50 + 100 + -50", "0"),
        ("5 * 2 + 10", "20"),
        ("5 + 2 * 10", "25"),
        ("20 + 2 * -10", "0"),
        ("50 / 2 * 2 + 10", "60"),
        ("2 * (5 + 10)", "30"),
        ("3 * 3 * 3 + 10", "37"),
        ("3 * (3 * 3) + 10", "37"),
        ("(5 + 10 * 2 + 15 / 3) * 2 + -10", "50"),
    ];
    apply_test(&test_case);
}

#[test]
fn test_boolean_expressions() {
    let test_case = [
        ("true", "true"),
        ("false", "false"),
        ("1 < 2", "true"),
        ("1 > 2", "false"),
        ("1 < 1", "false"),
        ("1 > 1", "false"),
        ("1 == 1", "true"),
        ("1 != 1", "false"),
        ("1 == 2", "false"),
        ("1 != 2", "true"),
        ("true == true", "true"),
        ("false == false", "true"),
        ("true == false", "false"),
        ("true != false", "true"),
        ("false != true", "true"),
        ("(1 < 2) == true", "true"),
        ("(1 < 2) == false", "false"),
        ("(1 > 2) == true", "false"),
        ("(1 > 2) == false", "true"),
    ];
    apply_test(&test_case);
}

#[test]
fn test_bang_operator() {
    let test_case = [
        ("!true", "false"),
        ("!false", "true"),
        ("!5", "false"),
        ("!!true", "true"),
        ("!!false", "false"),
        ("!!5", "true"),
    ];
    apply_test(&test_case);
}

#[test]
fn test_if_else_expressions() {
    let test_case = [
        ("if (true) { 10 }", "10"),
        ("if (false) { 10 }", "null"),
        ("if (1) { 10 }", "10"),
        ("if (1 < 2) { 10 }", "10"),
        ("if (1 > 2) { 10 }", "null"),
        ("if (1 > 2) { 10 } else { 20 }", "20"),
        ("if (1 < 2) { 10 } else { 20 }", "10"),
    ];
    apply_test(&test_case);
}

#[test]
fn test_return_statements() {
    let test_case = [
        ("return 10;", "10"),
        ("return 10; 9;", "10"),
        ("return 2 * 5; 9;", "10"),
        ("9; return 2 * 5; 9;", "10"),
        (
            "if (10 > 1) { \
             if (10 > 1) { \
             return 10; \
             } \
             return 1; \
             }",
            "10",
        ),
    ];
    apply_test(&test_case);
}

#[test]
fn test_error_handling() {
    let test_case = [
        ("5 + true;", "type mismatch: 5 + true"),
        ("5 + true; 5;", "type mismatch: 5 + true"),
        ("-true", "unknown operator: -true"),
        ("true + false;", "unknown operator: true + false"),
        ("true + false + true + false;", "unknown operator: true + false"),
        ("5; true + false; 5", "unknown operator: true + false"),
        ("if (10 > 1) { true + false; )", "unknown operator: true + false"),
    ];
    apply_test(&test_case);
}

#[test]
fn test_let_statements() {
    let test_case = [
        ("let a = 5; a;", "5"),
        ("let a = 5 * 5; a;", "25"),
        ("let a = 5; let b = a; b;", "5"),
        ("let a = 5; let b = a; let c = a + b + 5; c;", "15"),
    ];
    apply_test(&test_case);
}

#[test]
fn test_function_object() {
    let test_case = [("fn(x) { x + 2; };", "fn(x) {...}")];
    apply_test(&test_case);
}

#[test]
fn test_function_application() {
    let test_case = [
        ("let identity = fn(x) { x; }; identity(5);", "5"),
        ("let identity = fn(x) { return x; }; identity(5);", "5"),
        ("let double = fn(x) { x * 2; }; double(5);", "10"),
        ("let add = fn(x, y) { x + y; }; add(5, 5);", "10"),
        ("let add = fn(x, y) { x + y; }; add(5 + 5, add(5, 5));", "20"),
        ("fn(x) { x; }(5)", "5"),
    ];
    apply_test(&test_case);
}

#[test]
fn test_enclosing_environment() {
    let test_case = [(
        "let first = 10; \
         let second = 10; \
         let third = 10; \
         let ourFunction = fn(first) { \
         let second = 20; \
         first + second + third; \
         }; \
         ourFunction(20) + first + second;",
        "70",
    )];
    apply_test(&test_case);
}

#[test]
fn test_closure() {
    let test_case = [(
        "let newAdder = fn(x) { \
         fn(y) { x + y }; \
         }; \
         let addTwo = newAdder(2); \
         addTwo(2);",
        "4",
    )];
    apply_test(&test_case);
}

#[test]
fn closure_sees_its_definition_site_not_its_caller() {
    let mut env = Environment::new();
    let out = run(&mut env, "let f = fn() { g }; let h = fn() { let g = 1; f() }; h()");
    assert_eq!(out, "identifier not found: g");
}

#[test]
fn let_then_read_equals_expression() {
    let mut a = Environment::new();
    let mut b = Environment::new();
    assert_eq!(run(&mut a, "let x = 5 * 5 + 2; x"), run(&mut b, "5 * 5 + 2"));
    assert_eq!(run(&mut a, "let y = if (1 > 2) { 3 }; y"), "null");
    let mut c = Environment::new();
    assert_eq!(run(&mut c, "let z = 5 + true; z"), "type mismatch: 5 + true");
}

#[test]
fn return_wrapper_never_escapes() {
    let mut env = Environment::new();
    let node = parse("return if (true) { return 7; };").unwrap();
    let value = eval(node, &mut env).unwrap();
    assert!(matches!(value, Object::Integer(7)));
    let node = parse("let f = fn() { if (true) { return 3; } 4 }; f()").unwrap();
    assert!(matches!(eval(node, &mut env).unwrap(), Object::Integer(3)));
}

#[test]
fn seed_scenarios() {
    let mut env = Environment::new();
    assert_eq!(run(&mut env, "let newAdder = fn(x) { fn(y) { x + y } }; let aTwo = newAdder(2); aTwo(2);"), "4");
    // Digits do not belong to identifiers, so `a2` reads as `a` then `2`.
    let errors = parse("let a2 = newAdder(2);").unwrap_err();
    assert_eq!(errors[0].to_string(), "expected next token to be =, but got 2 instead");
    assert_eq!(run(&mut env, "foobar;"), "identifier not found: foobar");
    assert_eq!(run(&mut env, ""), "null");
}

#[test]
fn evaluator_error_messages() {
    let mut env = Environment::new();
    assert_eq!(run(&mut env, "5(1)"), "not a function: 5");
    assert_eq!(run(&mut env, "fn(x) { x }()"), "invalid number of arguments: exected=1, got=0");
    assert_eq!(run(&mut env, "fn() { 1 }(2, 3)"), "invalid number of arguments: exected=0, got=2");
    assert_eq!(run(&mut env, "true < false"), "unknown operator: true < false");
    assert_eq!(run(&mut env, "-fn(a, b) { a }"), "unknown operator: -fn(a,b) {...}");
    assert_eq!(run(&mut env, "if (true) { 1 } == 1"), "true");
    assert_eq!(run(&mut env, "1 / 0"), "division by zero");
}

#[test]
fn integer_arithmetic_wraps_and_truncates() {
    let mut env = Environment::new();
    assert_eq!(run(&mut env, "2147483647 + 1"), "-2147483648");
    assert_eq!(run(&mut env, "-7 / 2"), "-3");
    assert_eq!(run(&mut env, "7 / -2"), "-3");
    assert_eq!(run(&mut env, "0 - 2147483647 - 1"), "-2147483648");
    assert_eq!(run(&mut env, "(0 - 2147483647 - 1) / -1"), "-2147483648");
    assert_eq!(run(&mut env, "-(0 - 2147483647 - 1)"), "-2147483648");
}

#[test]
fn recursion_through_shared_frame() {
    let mut env = Environment::new();
    assert_eq!(
        run(&mut env, "let fib = fn(n) { if (n < 2) { n } else { fib(n - 1) + fib(n - 2) } }; fib(15)"),
        "610"
    );
}

#[test]
fn runaway_recursion_is_an_error() {
    let mut env = Environment::new();
    assert_eq!(run(&mut env, "let f = fn() { f() }; f()"), "maximum evaluation depth exceeded");
}

#[test]
fn environment_get_set_reset() {
    let mut env = Environment::new();
    assert!(env.get("a").is_none());
    env.set("a".to_string(), Object::Integer(1));
    env.set("a".to_string(), Object::Boolean(true));
    assert!(matches!(env.get("a"), Some(Object::Boolean(true))));
    assert_eq!(run(&mut env, "a"), "true");
    env.reset();
    assert!(env.get("a").is_none());
    assert_eq!(env.frame_count(), 1);
}

#[test]
fn state_persists_across_programs() {
    let mut env = Environment::new();
    assert_eq!(run(&mut env, "let x = 3;"), "3");
    assert_eq!(run(&mut env, "x * 2"), "6");
}
