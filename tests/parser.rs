use monkey::parser::{parse, token_to_precedence, Precedence};
use monkey::token::Token;

fn apply_test(test_case: &[(&str, &str)]) {
    for (input, expected) in test_case {
        match parse(input) {
            Ok(node) => assert_eq!(*expected, node.to_string()),
            Err(e) => panic!("Parsing Error: {:#?}", e),
        }
    }
}

fn errors_of(input: &str) -> Vec<String> {
    match parse(input) {
        Ok(node) => panic!("parsed: {}", node.to_string()),
        Err(errors) => errors.iter().map(|e| e.to_string()).collect(),
    }
}

#[test]
fn test_let_statement() {
    let test_case = [
        ("let x = 5;", "let x = 5;"),
        ("let y = true;", "let y = true;"),
        ("let foobar = 124214;", "let foobar = 124214;"),
    ];
    apply_test(&test_case);
}

#[test]
fn test_return_statement() {
    let test_case = [
        ("return 5;", "return 5;"),
        ("return true;", "return true;"),
        ("return foobar;", "return foobar;"),
    ];
    apply_test(&test_case);
}

#[test]
fn test_identifier_expression() {
    let test_case = [("foobar;", "foobar")];
    apply_test(&test_case);
}

#[test]
fn test_integer_literal_expression() {
    let test_case = [("5;", "5")];
    apply_test(&test_case);
}

#[test]
fn test_prefix_expression() {
    let test_case = [("!5;", "(!5)"), ("-15", "(-15)")];
    apply_test(&test_case);
}

#[test]
fn test_parse_infix_expression() {
    let test_case = [
        ("5 + 5;", "(5 + 5)"),
        ("5 - 5;", "(5 - 5)"),
        ("5 * 5;", "(5 * 5)"),
        ("5 / 5;", "(5 / 5)"),
        ("5 > 5;", "(5 > 5)"),
        ("5 < 5;", "(5 < 5)"),
        ("5 == 5;", "(5 == 5)"),
        ("5 != 5;", "(5 != 5)"),
    ];
    apply_test(&test_case);
}

#[test]
fn operator_precedence_display() {
    let test_case = [
        ("-a * b", "((-a) * b)"),
        ("a + b * c + d / e - f", "(((a + (b * c)) + (d / e)) - f)"),
        ("!-a", "(!(-a))"),
        ("a + b + c", "((a + b) + c)"),
        ("5 > 4 == 3 < 4", "((5 > 4) == (3 < 4))"),
        ("1 + (2 + 3) + 4", "((1 + (2 + 3)) + 4)"),
        ("a + add(b * c) + d", "((a + add((b * c))) + d)"),
        ("add(a, b, 1, 2 * 3, 4 + 5, add(6, 7 * 8))", "add(a, b, 1, (2 * 3), (4 + 5), add(6, (7 * 8)))"),
    ];
    apply_test(&test_case);
}

#[test]
fn compound_expression_display() {
    let test_case = [
        ("if (x < y) { x }", "if (x < y) { x }"),
        ("if (x < y) { x } else { y }", "if (x < y) { x } else { y }"),
        ("fn(x, y) { x + y; }", "fn(x, y) {...}"),
        ("fn() { 1 }", "fn() {...}"),
        ("let a = 1; a", "let a = 1;a"),
        ("f()", "f()"),
    ];
    apply_test(&test_case);
}

#[test]
fn parser_error_messages() {
    assert_eq!(
        errors_of("let = 5;"),
        vec![
            "Expected an identifier but got =".to_string(),
            "No prefix parse function for = is found".to_string(),
        ]
    );
    assert_eq!(errors_of("let x 5;"), vec!["expected next token to be =, but got 5 instead"]);
    assert_eq!(errors_of(")"), vec!["No prefix parse function for ) is found"]);
    assert_eq!(errors_of("fn(1) { 1 }")[0], "Expected an identifier but got 1");
    assert_eq!(errors_of("(1 + 2"), vec!["expected next token to be ), but got EOF instead"]);
    assert_eq!(errors_of("if x { 1 }")[0], "expected next token to be (, but got x instead");
}

#[test]
fn precedence_table() {
    assert_eq!(token_to_precedence(&Token::Asterisk), Precedence::Product);
    assert_eq!(token_to_precedence(&Token::Dash), Precedence::Sum);
    assert_eq!(token_to_precedence(&Token::GreaterThan), Precedence::LessGreater);
    assert_eq!(token_to_precedence(&Token::NotEqual), Precedence::Equals);
    assert_eq!(token_to_precedence(&Token::LParen), Precedence::Call);
    assert_eq!(token_to_precedence(&Token::Comma), Precedence::Lowest);
    assert!(Precedence::Lowest < Precedence::Call);
}
