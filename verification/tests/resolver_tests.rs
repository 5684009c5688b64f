use rlox::error_reporter::LoxError;
use rlox::interpreter::Interpreter;
use rlox::literal::Literal;
use rlox::parser::Parser;
use rlox::resolver::Resolver;
use rlox::scanner::Scanner;
use rlox::token::Token;
use rlox::token_type::TokenType;

fn complaints(source: &str) -> Vec<(String, u32, String)> {
    let mut scanner = Scanner::new(source);
    scanner.scan_tokens();
    let (tokens, _) = scanner.finish();
    let tokens: Vec<Token> = tokens
        .into_iter()
        .map(|token| {
            if token.token_type == TokenType::Number {
                let bits = token.lexeme.parse::<f64>().unwrap().to_bits();
                Token::new(token.token_type, token.lexeme, Some(Literal::Number(bits)), token.line)
            } else {
                token
            }
        })
        .collect();
    let mut parser = Parser::new(&tokens);
    let statements = parser.parse();
    assert!(parser.errors().is_empty());
    let interpreter = Interpreter::new();
    let mut resolver = Resolver::new(&interpreter);
    resolver.resolve(&statements);
    resolver
        .errors()
        .iter()
        .map(|error| match error {
            LoxError::ResolverError { token, message } => {
                (token.lexeme.clone(), token.line, message.clone())
            }
            other => panic!("unexpected {:?}", other),
        })
        .collect()
}

fn own_initializer(name: &str, line: u32) -> (String, u32, String) {
    (name.to_string(), line, "Can't read local variable in its own initializer.".to_string())
}

#[test]
fn variable_read_in_its_own_initializer_is_reported() {
    assert_eq!(complaints("{ var a = a; }"), vec![own_initializer("a", 1)]);
    assert_eq!(
        complaints("var a = 1;\n{\n var a = a + 1;\n}"),
        vec![own_initializer("a", 3)]
    );
}

#[test]
fn globals_are_not_looked_at() {
    assert_eq!(complaints("var a = a;"), vec![]);
}

#[test]
fn complete_declarations_can_be_read() {
    assert_eq!(complaints("{ var a = 1; var b = a; a = a + b; print a; }"), vec![]);
    assert_eq!(complaints("{ var a = 1; var a = a; }"), vec![own_initializer("a", 1)]);
    assert_eq!(complaints("{ var a; { var b = a; } }"), vec![]);
}

#[test]
fn only_the_innermost_scope_counts() {
    assert_eq!(complaints("{ var a = 1; { var b = a; } }"), vec![]);
    assert_eq!(complaints("{ var a = f(1, (a), -a); }").len(), 2);
}

#[test]
fn every_part_of_a_statement_is_gone_through() {
    assert_eq!(
        complaints(
            "fun f(p) {\n var x = p;\n if (x) { var y = y; } else while (p) { var z = !z or z; }\n return x;\n}"
        ),
        vec![own_initializer("y", 3), own_initializer("z", 3), own_initializer("z", 3)]
    );
}

#[test]
fn functions_and_parameters_are_complete_at_once() {
    assert_eq!(complaints("{ fun f(a, b) { return f(a, b); } print f; }"), vec![]);
    assert_eq!(complaints("fun f(a) { var a = a; }"), vec![own_initializer("a", 1)]);
}

#[test]
fn resolver_errors_have_their_diagnostic() {
    let token = Token::new(TokenType::Identifier, "a".to_string(), None, 5);
    let error = LoxError::resolver_error(
        token,
        "Can't read local variable in its own initializer.".to_string(),
    );
    assert_eq!(
        error.report(),
        Some("Can't read local variable in its own initializer.\n[line 5]".to_string())
    );
}
