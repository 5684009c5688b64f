use rlox::environment::Environment;
use rlox::error_reporter::LoxError;
use rlox::literal::{Fragment, Literal};
use rlox::number;
use rlox::semantics::{
    arity_mismatch, binary_operation, is_same, is_short_circuit, is_truthy, unary_operation,
    Operation,
};
use rlox::text::{characters, spells_word, text_between, to_decimal};
use rlox::token::Token;
use rlox::token_type::TokenType;

fn token(kind: TokenType, lexeme: &str, line: u32) -> Token {
    Token::new(kind, lexeme.to_string(), None, line)
}

fn number(value: f64) -> Literal {
    Literal::Number(value.to_bits())
}

fn text(value: &str) -> Literal {
    Literal::String(value.to_string())
}

fn samples() -> Vec<f64> {
    vec![
        0.0,
        -0.0,
        1.0,
        -1.0,
        0.5,
        -0.5,
        2.0,
        1.0e300,
        -1.0e300,
        5e-324,
        -5e-324,
        f64::MIN_POSITIVE,
        f64::MAX,
        f64::MIN,
        f64::INFINITY,
        f64::NEG_INFINITY,
        f64::NAN,
        -f64::NAN,
        f64::from_bits(0x7FF0_0000_0000_0001),
        f64::from_bits(0xFFFF_FFFF_FFFF_FFFF),
        3.0,
        7.25,
    ]
}

#[test]
fn numbers_compare_as_doubles_do() {
    for a in samples() {
        for b in samples() {
            let (x, y) = (a.to_bits(), b.to_bits());
            assert_eq!(number::is_equal(x, y), a == b, "{} == {}", a, b);
            assert_eq!(number::is_less(x, y), a < b, "{} < {}", a, b);
            assert_eq!(number::is_less_or_equal(x, y), a <= b, "{} <= {}", a, b);
        }
    }
}

#[test]
fn negation_flips_the_sign() {
    for a in samples() {
        assert_eq!(number::negate(a.to_bits()), (-a).to_bits(), "-{}", a);
        assert_eq!(number::check_nan(a.to_bits()), a.is_nan());
    }
    assert_eq!(number::negate(0), 0x8000_0000_0000_0000);
}

#[test]
fn decimals_are_written_without_leading_zeros() {
    assert_eq!(to_decimal(0), "0");
    assert_eq!(to_decimal(7), "7");
    assert_eq!(to_decimal(10), "10");
    assert_eq!(to_decimal(255), "255");
    assert_eq!(to_decimal(1002003), "1002003");
    assert_eq!(to_decimal(u64::MAX), "18446744073709551615");
}

#[test]
fn texts_are_taken_apart_and_put_together() {
    let list = characters("h\u{e9}llo");
    assert_eq!(list, vec!['h', '\u{e9}', 'l', 'l', 'o']);
    assert_eq!(text_between(&list, 1, 4), "\u{e9}ll");
    assert_eq!(text_between(&list, 2, 2), "");
    assert!(spells_word(&list, 2, 5, "llo"));
    assert!(!spells_word(&list, 2, 5, "ll"));
    assert!(!spells_word(&list, 2, 5, "lla"));
}

#[test]
fn only_nil_and_false_are_false() {
    assert!(!is_truthy(&Literal::Nil));
    assert!(!is_truthy(&Literal::Bool(false)));
    assert!(is_truthy(&Literal::Bool(true)));
    assert!(is_truthy(&number(0.0)));
    assert!(is_truthy(&text("")));
    assert!(is_truthy(&Literal::NilImplicit));
}

#[test]
fn values_of_different_kinds_are_unequal() {
    assert!(!is_same(&text("a"), &number(1.0)));
    assert!(is_same(&Literal::Nil, &Literal::Nil));
    assert!(!is_same(&Literal::Nil, &Literal::Bool(false)));
    assert!(!is_same(&number(0.0), &Literal::Bool(false)));
    assert!(is_same(&text("ab"), &text("ab")));
    assert!(!is_same(&text("ab"), &text("abc")));
    assert!(is_same(&Literal::Bool(true), &Literal::Bool(true)));
    assert!(!is_same(&Literal::Bool(true), &Literal::Bool(false)));
    assert!(is_same(&number(0.0), &number(-0.0)));
    assert!(!is_same(&number(f64::NAN), &number(f64::NAN)));
}

fn done_bool(operation: Operation) -> bool {
    match operation {
        Operation::Done(Literal::Bool(value)) => value,
        other => panic!("not a boolean: {:?}", other),
    }
}

fn failed_with(operation: Operation) -> (String, u32, String) {
    match operation {
        Operation::Failed(LoxError::RuntimeError { token, message }) => {
            (token.lexeme, token.line, message)
        }
        other => panic!("not a failure: {:?}", other),
    }
}

#[test]
fn arithmetic_between_numbers_is_handed_to_the_host() {
    for (kind, lexeme) in [
        (TokenType::Plus, "+"),
        (TokenType::Minus, "-"),
        (TokenType::Star, "*"),
        (TokenType::Slash, "/"),
    ] {
        match binary_operation(number(6.0), &token(kind, lexeme, 1), number(3.0)) {
            Operation::Arithmetic { operator, left, right } => {
                assert_eq!(operator, kind);
                assert_eq!(left, 6.0f64.to_bits());
                assert_eq!(right, 3.0f64.to_bits());
            }
            other => panic!("unexpected {:?}", other),
        }
    }
}

#[test]
fn relations_between_numbers_are_decided() {
    let greater = token(TokenType::Greater, ">", 1);
    let greater_equal = token(TokenType::GreaterEqual, ">=", 1);
    let less = token(TokenType::Less, "<", 1);
    let less_equal = token(TokenType::LessEqual, "<=", 1);
    assert!(done_bool(binary_operation(number(2.0), &greater, number(1.0))));
    assert!(!done_bool(binary_operation(number(1.0), &greater, number(1.0))));
    assert!(done_bool(binary_operation(number(1.0), &greater_equal, number(1.0))));
    assert!(done_bool(binary_operation(number(-1.0), &less, number(1.0))));
    assert!(!done_bool(binary_operation(number(1.0), &less, number(-1.0))));
    assert!(done_bool(binary_operation(number(1.0), &less_equal, number(1.0))));
    assert!(!done_bool(binary_operation(number(f64::NAN), &less_equal, number(f64::NAN))));
}

#[test]
fn equality_takes_any_two_values() {
    let equal = token(TokenType::EqualEqual, "==", 1);
    let unequal = token(TokenType::BangEqual, "!=", 1);
    assert!(!done_bool(binary_operation(text("a"), &equal, number(1.0))));
    assert!(done_bool(binary_operation(text("a"), &unequal, number(1.0))));
    assert!(done_bool(binary_operation(Literal::Nil, &equal, Literal::Nil)));
    assert!(!done_bool(binary_operation(Literal::Nil, &unequal, Literal::Nil)));
    assert!(!done_bool(binary_operation(Literal::Nil, &equal, number(0.0))));
    assert!(done_bool(binary_operation(Literal::Bool(true), &unequal, text("true"))));
    assert!(done_bool(binary_operation(number(f64::NAN), &unequal, number(f64::NAN))));
    assert!(done_bool(binary_operation(number(2.0), &equal, number(2.0))));
}

#[test]
fn plus_joins_strings_and_numbers() {
    let plus = token(TokenType::Plus, "+", 1);
    match binary_operation(text("hi "), &plus, text("world")) {
        Operation::Done(Literal::String(joined)) => assert_eq!(joined, "hi world"),
        other => panic!("unexpected {:?}", other),
    }
    match binary_operation(number(1.0), &plus, text("a")) {
        Operation::NumberThenText { number, text } => {
            assert_eq!(number, 1.0f64.to_bits());
            assert_eq!(text, "a");
        }
        other => panic!("unexpected {:?}", other),
    }
    match binary_operation(text("a"), &plus, number(2.0)) {
        Operation::TextThenNumber { text, number } => {
            assert_eq!(number, 2.0f64.to_bits());
            assert_eq!(text, "a");
        }
        other => panic!("unexpected {:?}", other),
    }
}

#[test]
fn other_operands_fail_at_the_operator() {
    let minus = token(TokenType::Minus, "-", 4);
    let less = token(TokenType::Less, "<", 5);
    assert_eq!(
        failed_with(binary_operation(text("a"), &minus, text("b"))),
        ("-".to_string(), 4, "Operands must be numbers".to_string())
    );
    assert_eq!(
        failed_with(binary_operation(text("a"), &less, number(1.0))),
        ("<".to_string(), 5, "Operands must be numbers".to_string())
    );
    assert_eq!(
        failed_with(binary_operation(Literal::Bool(true), &minus, Literal::Bool(true))),
        ("-".to_string(), 4, "Operands must be numbers".to_string())
    );
    assert_eq!(
        failed_with(binary_operation(number(1.0), &minus, Literal::Bool(true))),
        ("-".to_string(), 4, "Operands must be two numbers or two strings.".to_string())
    );
    assert_eq!(
        failed_with(binary_operation(Literal::Nil, &less, Literal::Nil)),
        ("<".to_string(), 5, "Operands must be two numbers or two strings.".to_string())
    );
    assert_eq!(
        failed_with(binary_operation(number(1.0), &less, Literal::Nil)),
        ("<".to_string(), 5, "Operands must be two numbers or two strings.".to_string())
    );
    assert_eq!(
        failed_with(binary_operation(number(1.0), &token(TokenType::Comma, ",", 6), number(2.0))),
        (",".to_string(), 6, "Invalid operation".to_string())
    );
}

#[test]
fn unary_operators_negate() {
    let minus = token(TokenType::Minus, "-", 2);
    let bang = token(TokenType::Bang, "!", 2);
    match unary_operation(&minus, number(1.5)) {
        Operation::Done(Literal::Number(bits)) => assert_eq!(bits, (-1.5f64).to_bits()),
        other => panic!("unexpected {:?}", other),
    }
    assert_eq!(
        failed_with(unary_operation(&minus, text("a"))),
        ("-".to_string(), 2, "Operand must be a number.".to_string())
    );
    assert!(done_bool(unary_operation(&bang, Literal::Nil)));
    assert!(!done_bool(unary_operation(&bang, number(0.0))));
    assert!(done_bool(unary_operation(&bang, Literal::Bool(false))));
}

#[test]
fn logical_operators_stop_at_the_left_operand() {
    let or = token(TokenType::Or, "or", 1);
    let and = token(TokenType::And, "and", 1);
    assert!(is_short_circuit(&or, &Literal::Bool(true)));
    assert!(!is_short_circuit(&or, &Literal::Nil));
    assert!(is_short_circuit(&and, &Literal::Bool(false)));
    assert!(!is_short_circuit(&and, &number(0.0)));
}

#[test]
fn arity_mismatch_names_both_counts() {
    match arity_mismatch(&token(TokenType::RightParen, ")", 9), 1, 12) {
        LoxError::RuntimeError { token, message } => {
            assert_eq!(message, "Expected 1 arguments but got 12.");
            assert_eq!(token.line, 9);
        }
        other => panic!("unexpected {:?}", other),
    }
}

#[test]
fn values_show_as_the_language_prints_them() {
    let shown = |value: &Literal| match value.display() {
        Fragment::Text(text) => text,
        Fragment::Number(bits) => format!("{}", f64::from_bits(bits)),
    };
    assert_eq!(shown(&number(3.0)), "3");
    assert_eq!(shown(&number(2.5)), "2.5");
    assert_eq!(shown(&text("a b")), "a b");
    assert_eq!(shown(&Literal::Bool(true)), "true");
    assert_eq!(shown(&Literal::Bool(false)), "false");
    assert_eq!(shown(&Literal::Nil), "nil");
    assert_eq!(shown(&Literal::NilImplicit), "nil_implicit");
}

#[test]
fn every_error_has_its_diagnostic() {
    let name = token(TokenType::Identifier, "x", 3);
    let end = token(TokenType::EOF, "", 7);
    assert_eq!(
        LoxError::scan_error(2, "Unexpected character.".to_string()).report(),
        Some("[line 2] Error : Unexpected character.".to_string())
    );
    assert_eq!(
        LoxError::parse_error(name.clone(), "Expect ';' after value.".to_string()).report(),
        Some("[line 3] Error at 'x': Expect ';' after value.".to_string())
    );
    assert_eq!(
        LoxError::parse_error(end, "Expect ';' after value.".to_string()).report(),
        Some("[line 7] Error at end: Expect ';' after value.".to_string())
    );
    assert_eq!(
        LoxError::runtime_error(name.clone(), "Undefined variable 'x'.".to_string()).report(),
        Some("Undefined variable 'x'.\n[line 3]".to_string())
    );
    assert_eq!(
        LoxError::resolver_error(
            name,
            "Can't read local variable in its own initializer.".to_string()
        )
        .report(),
        Some("Can't read local variable in its own initializer.\n[line 3]".to_string())
    );
    assert_eq!(
        LoxError::system_error("clock unavailable".to_string()).report(),
        Some("System Error: clock unavailable".to_string())
    );
    assert_eq!(LoxError::return_value(Literal::Nil).report(), None);
    assert_eq!(
        LoxError::scan_error(4294967295, "m".to_string()).report(),
        Some("[line 4294967295] Error : m".to_string())
    );
}

fn read(environment: &Environment, scope: usize, name: &str) -> Result<Literal, LoxError> {
    environment.get(scope, &token(TokenType::Identifier, name, 1))
}

fn as_number(value: Result<Literal, LoxError>) -> f64 {
    match value {
        Ok(Literal::Number(bits)) => f64::from_bits(bits),
        other => panic!("not a number: {:?}", other),
    }
}

#[test]
fn inner_declaration_shadows_the_outer_one() {
    let mut environment = Environment::new();
    environment.define(0, "x".to_string(), number(1.0));
    let inner = environment.new_with_enclosing(0);
    assert_eq!(inner, 1);
    assert_eq!(environment.len(), 2);
    assert_eq!(as_number(read(&environment, inner, "x")), 1.0);
    environment.define(inner, "x".to_string(), number(2.0));
    assert_eq!(as_number(read(&environment, inner, "x")), 2.0);
    assert_eq!(as_number(read(&environment, 0, "x")), 1.0);
}

#[test]
fn defining_again_overwrites_in_the_same_scope() {
    let mut environment = Environment::new();
    environment.define(0, "x".to_string(), number(1.0));
    environment.define(0, "y".to_string(), number(5.0));
    environment.define(0, "x".to_string(), number(3.0));
    assert_eq!(as_number(read(&environment, 0, "x")), 3.0);
    assert_eq!(as_number(read(&environment, 0, "y")), 5.0);
}

#[test]
fn assignment_reaches_the_scope_that_holds_the_name() {
    let mut environment = Environment::new();
    environment.define(0, "x".to_string(), number(1.0));
    let first = environment.new_with_enclosing(0);
    let second = environment.new_with_enclosing(0);
    let deep = environment.new_with_enclosing(first);
    let name = token(TokenType::Identifier, "x", 1);
    assert!(environment.assign(deep, &name, number(9.0)).is_ok());
    assert_eq!(as_number(read(&environment, second, "x")), 9.0);
    assert_eq!(as_number(read(&environment, 0, "x")), 9.0);
    assert_eq!(as_number(read(&environment, first, "x")), 9.0);
    environment.define(first, "x".to_string(), number(4.0));
    assert!(environment.assign(deep, &name, number(5.0)).is_ok());
    assert_eq!(as_number(read(&environment, first, "x")), 5.0);
    assert_eq!(as_number(read(&environment, second, "x")), 9.0);
}

#[test]
fn unknown_names_are_undefined() {
    let mut environment = Environment::new();
    let inner = environment.new_with_enclosing(0);
    environment.define(inner, "x".to_string(), number(1.0));
    let name = token(TokenType::Identifier, "x", 12);
    match environment.get(0, &name) {
        Err(LoxError::RuntimeError { token, message }) => {
            assert_eq!(message, "Undefined variable 'x'.");
            assert_eq!(token.line, 12);
            assert_eq!(token.lexeme, "x");
        }
        other => panic!("unexpected {:?}", other),
    }
    match environment.assign(0, &name, number(2.0)) {
        Err(LoxError::RuntimeError { message, .. }) => {
            assert_eq!(message, "Undefined variable 'x'.")
        }
        other => panic!("unexpected {:?}", other),
    }
    assert_eq!(as_number(read(&environment, inner, "x")), 1.0);
}
