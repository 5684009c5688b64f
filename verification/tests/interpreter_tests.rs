use rlox::callable::LoxCallable;
use rlox::error_reporter::LoxError;
use rlox::expr::{BinaryExpr, CallExpr, Expr, LiteralExpr, LogicalExpr, VariableExpr};
use rlox::function::LoxFunction;
use rlox::host::{Action, Event};
use rlox::interpreter::{Control, Frame, Interpreter};
use rlox::literal::Literal;
use rlox::native_functions::Clock;
use rlox::parser::Parser;
use rlox::scanner::Scanner;
use rlox::stmt::{ExpressionStmt, FunctionStmt, PrintStmt, ReturnStmt, Stmt, VarStmt};
use rlox::token::Token;
use rlox::token_type::TokenType;
use std::rc::Rc;

fn token(kind: TokenType, lexeme: &str) -> Token {
    Token::new(kind, lexeme.to_string(), None, 1)
}

fn literal(value: Literal) -> Rc<Expr> {
    Rc::new(Expr::Literal(LiteralExpr::new(Some(value))))
}

fn variable(name: &str) -> Rc<Expr> {
    Rc::new(Expr::Variable(VariableExpr::new(token(TokenType::Identifier, name))))
}

fn steps_to_action(interpreter: &mut Interpreter) -> Action {
    for _ in 0..10_000 {
        match interpreter.step(Event::Done) {
            Action::Continue => {}
            other => return other,
        }
    }
    panic!("no action within ten thousand steps");
}

#[test]
fn new_interpreter_knows_the_clock_and_has_nothing_to_do() {
    let mut interpreter = Interpreter::new();
    assert_eq!(interpreter.globals(), 0);
    assert_eq!(interpreter.environment.len(), 1);
    match interpreter.environment.get(0, &token(TokenType::Identifier, "clock")) {
        Ok(Literal::Function(callable)) => {
            assert_eq!(callable.arity(), 0);
            assert_eq!(callable.display(), "native clock function");
        }
        other => panic!("unexpected {:?}", other),
    }
    assert!(matches!(interpreter.step(Event::Done), Action::Finish));
    assert!(matches!(interpreter.step(Event::Number(1)), Action::Finish));
    assert!(interpreter.frames.is_empty());
}

#[test]
fn print_asks_the_host_to_write() {
    let mut interpreter = Interpreter::new();
    interpreter.interpret(vec![
        Stmt::Print(PrintStmt::new(literal(Literal::String("one".to_string())))),
        Stmt::Print(PrintStmt::new(literal(Literal::Bool(false)))),
        Stmt::Print(PrintStmt::new(literal(Literal::Nil))),
    ]);
    for expected in ["one", "false", "nil"] {
        match steps_to_action(&mut interpreter) {
            Action::Print { text } => assert_eq!(text, expected),
            other => panic!("unexpected {:?}", other),
        }
    }
    assert!(matches!(steps_to_action(&mut interpreter), Action::Finish));
}

#[test]
fn printing_a_number_asks_for_its_decimal_first() {
    let mut interpreter = Interpreter::new();
    interpreter.interpret(vec![Stmt::Print(PrintStmt::new(literal(Literal::Number(7))))]);
    assert!(matches!(steps_to_action(&mut interpreter), Action::Format { number: 7 }));
    match interpreter.step(Event::Text("seven".to_string())) {
        Action::Print { text } => assert_eq!(text, "seven"),
        other => panic!("unexpected {:?}", other),
    }
    assert!(matches!(steps_to_action(&mut interpreter), Action::Finish));
}

#[test]
fn missing_literal_is_nil() {
    let mut interpreter = Interpreter::new();
    interpreter
        .interpret(vec![Stmt::Print(PrintStmt::new(Rc::new(Expr::Literal(LiteralExpr::new(None)))))]);
    match steps_to_action(&mut interpreter) {
        Action::Print { text } => assert_eq!(text, "nil"),
        other => panic!("unexpected {:?}", other),
    }
}

#[test]
fn true_left_operand_of_or_is_the_result_in_one_step() {
    let mut interpreter = Interpreter::new();
    let or = token(TokenType::Or, "or");
    let expr = Expr::Logical(LogicalExpr::new(
        literal(Literal::Number(3)),
        or,
        variable("never_defined"),
    ));
    interpreter.interpret(vec![Stmt::Print(PrintStmt::new(Rc::new(expr)))]);
    loop {
        assert!(matches!(interpreter.step(Event::Done), Action::Continue));
        if matches!(interpreter.control, Control::Value(_))
            && matches!(interpreter.frames.last(), Some(Frame::Logical { .. }))
        {
            break;
        }
    }
    let depth = interpreter.frames.len();
    assert!(matches!(interpreter.step(Event::Done), Action::Continue));
    assert_eq!(interpreter.frames.len(), depth - 1);
    assert!(matches!(interpreter.control, Control::Value(Literal::Number(3))));
    assert!(matches!(steps_to_action(&mut interpreter), Action::Format { number: 3 }));
}

#[test]
fn arithmetic_waits_for_a_number() {
    let mut interpreter = Interpreter::new();
    let expr = Expr::Binary(BinaryExpr::new(
        literal(Literal::Number(10)),
        token(TokenType::Slash, "/"),
        literal(Literal::Number(20)),
    ));
    interpreter.interpret(vec![Stmt::Expression(ExpressionStmt::new(Rc::new(expr)))]);
    assert!(matches!(
        steps_to_action(&mut interpreter),
        Action::Arithmetic { operator: TokenType::Slash, left: 10, right: 20 }
    ));
    assert!(matches!(
        interpreter.step(Event::Done),
        Action::Arithmetic { operator: TokenType::Slash, left: 10, right: 20 }
    ));
    assert!(matches!(interpreter.step(Event::Number(30)), Action::Continue));
    assert!(matches!(interpreter.control, Control::Value(Literal::Number(30))));
    assert!(matches!(steps_to_action(&mut interpreter), Action::Finish));
}

#[test]
fn runtime_error_gives_up_what_was_under_way() {
    let mut interpreter = Interpreter::new();
    interpreter.interpret(vec![
        Stmt::Var(VarStmt::new(token(TokenType::Identifier, "a"), None)),
        Stmt::Print(PrintStmt::new(variable("a"))),
        Stmt::Print(PrintStmt::new(literal(Literal::Nil))),
    ]);
    match steps_to_action(&mut interpreter) {
        Action::Abort { error: LoxError::RuntimeError { token, message } } => {
            assert_eq!(message, "Variable was not explicitly initialized.");
            assert_eq!(token.lexeme, "a");
        }
        other => panic!("unexpected {:?}", other),
    }
    assert!(interpreter.frames.is_empty());
    assert_eq!(interpreter.current, 0);
    assert!(matches!(interpreter.step(Event::Done), Action::Finish));
}

#[test]
fn return_at_the_top_level_surfaces_with_its_value() {
    let mut interpreter = Interpreter::new();
    interpreter.interpret(vec![Stmt::Return(ReturnStmt::new(
        token(TokenType::Return, "return"),
        Some(literal(Literal::Bool(true))),
    ))]);
    match steps_to_action(&mut interpreter) {
        Action::Abort { error: LoxError::ReturnValue { value: Literal::Bool(true) } } => {}
        other => panic!("unexpected {:?}", other),
    }
}

#[test]
fn function_value_shares_the_body_of_its_declaration() {
    let body = Rc::new(vec![Stmt::Print(PrintStmt::new(literal(Literal::Nil)))]);
    let declaration = FunctionStmt::new(
        token(TokenType::Identifier, "f"),
        vec![token(TokenType::Identifier, "a"), token(TokenType::Identifier, "b")],
        body.clone(),
    );
    let function = LoxFunction::new(&declaration, 4);
    assert!(Rc::ptr_eq(&function.body, &body));
    assert_eq!(function.arity(), 2);
    assert_eq!(function.closure, 4);
    assert_eq!(function.params[1].lexeme, "b");
    assert_eq!(function.display(), "<fn f>");
    let callable = LoxCallable::Function(function);
    assert_eq!(callable.arity(), 2);
    assert_eq!(callable.display(), "<fn f>");
    let value = Literal::Function(Rc::new(callable));
    match (&value, &value.clone()) {
        (Literal::Function(one), Literal::Function(other)) => assert!(Rc::ptr_eq(one, other)),
        _ => panic!("not a function"),
    }
    assert_eq!(Clock {}.arity(), 0);
    assert_eq!(Clock {}.display(), "native clock function");
}

#[test]
fn function_of_another_interpreter_cannot_be_called() {
    let mut interpreter = Interpreter::new();
    let declaration = FunctionStmt::new(token(TokenType::Identifier, "f"), vec![], Rc::new(vec![]));
    let foreign = Literal::Function(Rc::new(LoxCallable::Function(LoxFunction::new(
        &declaration,
        17,
    ))));
    let call = Expr::Call(CallExpr::new(literal(foreign), token(TokenType::RightParen, ")"), vec![]));
    interpreter.interpret(vec![Stmt::Expression(ExpressionStmt::new(Rc::new(call)))]);
    match steps_to_action(&mut interpreter) {
        Action::Abort { error: LoxError::RuntimeError { message, .. } } => {
            assert_eq!(message, "Can only call functions and classes.")
        }
        other => panic!("unexpected {:?}", other),
    }
}

#[test]
fn block_runs_in_a_new_scope_under_the_given_one() {
    let mut interpreter = Interpreter::new();
    interpreter.environment.define(0, "x".to_string(), Literal::String("outer".to_string()));
    interpreter.execute_block(
        Rc::new(vec![
            Stmt::Print(PrintStmt::new(variable("x"))),
            Stmt::Var(VarStmt::new(
                token(TokenType::Identifier, "x"),
                Some(literal(Literal::String("inner".to_string()))),
            )),
            Stmt::Print(PrintStmt::new(variable("x"))),
        ]),
        0,
    );
    assert_eq!(interpreter.current, 1);
    assert_eq!(interpreter.environment.len(), 2);
    for expected in ["outer", "inner"] {
        match steps_to_action(&mut interpreter) {
            Action::Print { text } => assert_eq!(text, expected),
            other => panic!("unexpected {:?}", other),
        }
    }
    assert!(matches!(steps_to_action(&mut interpreter), Action::Finish));
    assert_eq!(interpreter.current, 0);
    assert_eq!(interpreter.environment.len(), 1);
    match interpreter.environment.get(0, &token(TokenType::Identifier, "x")) {
        Ok(Literal::String(text)) => assert_eq!(text, "outer"),
        other => panic!("unexpected {:?}", other),
    }
}

fn run_to_the_end(source: &str) -> (Interpreter, Vec<String>) {
    let mut scanner = Scanner::new(source);
    scanner.scan_tokens();
    let (tokens, _) = scanner.finish();
    let tokens: Vec<Token> = tokens
        .into_iter()
        .map(|token| {
            if token.token_type == TokenType::Number {
                let bits = token.lexeme.parse::<f64>().unwrap().to_bits();
                Token::new(token.token_type, token.lexeme, Some(Literal::Number(bits)), token.line)
            } else {
                token
            }
        })
        .collect();
    let mut parser = Parser::new(&tokens);
    let statements = parser.parse();
    assert!(parser.errors().is_empty());
    let mut interpreter = Interpreter::new();
    interpreter.interpret(statements);
    let mut out = Vec::new();
    let mut event = Event::Done;
    for _ in 0..1_000_000 {
        event = match interpreter.step(event) {
            Action::Arithmetic { operator, left, right } => {
                let (a, b) = (f64::from_bits(left), f64::from_bits(right));
                Event::Number(
                    match operator {
                        TokenType::Plus => a + b,
                        TokenType::Minus => a - b,
                        TokenType::Star => a * b,
                        _ => a / b,
                    }
                    .to_bits(),
                )
            }
            Action::Format { number } => Event::Text(format!("{}", f64::from_bits(number))),
            Action::Print { text } => {
                out.push(text);
                Event::Done
            }
            Action::Finish => return (interpreter, out),
            Action::Abort { error } => panic!("unexpected {:?}", error),
            _ => Event::Done,
        };
    }
    panic!("the program does not end");
}

#[test]
fn scopes_of_blocks_and_calls_are_discarded() {
    let (interpreter, out) = run_to_the_end(
        "var i = 0; while (i < 50) { var x = i; { var y = x; } i = i + 1; } \
         fun twice(n) { return n + n; } print twice(twice(3)); \
         fun early(n) { while (true) { { if (n > 0) return n; } } } print early(2);",
    );
    assert_eq!(out, vec!["12", "2"]);
    assert_eq!(interpreter.environment.len(), 1);
    assert_eq!(interpreter.current, 0);
}

#[test]
fn captured_scopes_are_kept() {
    let (interpreter, out) = run_to_the_end(
        "fun make() { var c = 0; fun inc() { c = c + 1; return c; } return inc; } \
         var f = make(); print f(); print f(); var g = make(); print g(); print f();",
    );
    assert_eq!(out, vec!["1", "2", "1", "3"]);
    assert_eq!(interpreter.environment.len(), 3);
    assert!(interpreter.environment.is_captured(0));
    assert!(interpreter.environment.is_captured(1));
    assert!(interpreter.environment.is_captured(2));
}

#[test]
fn scope_under_a_kept_one_is_kept_too() {
    let (interpreter, out) = run_to_the_end(
        "var f; { var a = 1; { var b = 2; fun sum() { return a + b; } f = sum; } } \
         { var c = 3; print f() + c; } print f();",
    );
    assert_eq!(out, vec!["6", "3"]);
    assert_eq!(interpreter.environment.len(), 3);
    assert!(!interpreter.environment.is_captured(1));
    assert!(interpreter.environment.is_captured(2));
}

#[test]
fn interpret_gives_up_what_was_under_way() {
    let mut interpreter = Interpreter::new();
    interpreter.interpret(vec![Stmt::Print(PrintStmt::new(literal(Literal::Number(1))))]);
    assert!(matches!(steps_to_action(&mut interpreter), Action::Format { number: 1 }));
    interpreter.interpret(vec![Stmt::Print(PrintStmt::new(literal(Literal::Bool(true))))]);
    match steps_to_action(&mut interpreter) {
        Action::Print { text } => assert_eq!(text, "true"),
        other => panic!("unexpected {:?}", other),
    }
}
