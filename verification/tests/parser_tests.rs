use rlox::ast_printer::AstPrinter;
use rlox::error_reporter::LoxError;
use rlox::expr::{BinaryExpr, Expr, GroupingExpr, LiteralExpr, UnaryExpr, VariableExpr};
use rlox::literal::{Fragment, Literal};
use rlox::parser::Parser;
use rlox::scanner::Scanner;
use rlox::stmt::Stmt;
use rlox::token::Token;
use rlox::token_type::TokenType;
use std::rc::Rc;

fn tokens_of(source: &str) -> Vec<Token> {
    let mut scanner = Scanner::new(source);
    scanner.scan_tokens();
    let (tokens, errors) = scanner.finish();
    assert!(errors.is_empty());
    tokens
        .into_iter()
        .map(|token| {
            if token.token_type == TokenType::Number {
                let bits = token.lexeme.parse::<f64>().unwrap().to_bits();
                Token::new(token.token_type, token.lexeme, Some(Literal::Number(bits)), token.line)
            } else {
                token
            }
        })
        .collect()
}

fn parse(source: &str) -> (Vec<Stmt>, Vec<String>) {
    let tokens = tokens_of(source);
    let mut parser = Parser::new(&tokens);
    let statements = parser.parse();
    let errors = parser.errors().iter().map(|error| error.report().unwrap()).collect();
    (statements, errors)
}

fn show(expr: &Expr) -> String {
    AstPrinter::new()
        .print(expr)
        .into_iter()
        .map(|fragment| match fragment {
            Fragment::Text(text) => text,
            Fragment::Number(bits) => format!("{}", f64::from_bits(bits)),
        })
        .collect()
}

fn show_statement(stmt: &Stmt) -> String {
    match stmt {
        Stmt::Block(node) => format!(
            "{{{}}}",
            node.statements.iter().map(show_statement).collect::<Vec<_>>().join(" ")
        ),
        Stmt::Expression(node) => format!("{};", show(&node.expression)),
        Stmt::Function(node) => format!(
            "fun {}({}) {{{}}}",
            node.name.lexeme,
            node.params.iter().map(|p| p.lexeme.clone()).collect::<Vec<_>>().join(","),
            node.body.iter().map(show_statement).collect::<Vec<_>>().join(" ")
        ),
        Stmt::If(node) => match &node.else_branch {
            Some(other) => format!(
                "if {} {} else {}",
                show(&node.condition),
                show_statement(&node.then_branch),
                show_statement(other)
            ),
            None => format!("if {} {}", show(&node.condition), show_statement(&node.then_branch)),
        },
        Stmt::Print(node) => format!("print {};", show(&node.expression)),
        Stmt::Return(node) => match &node.value {
            Some(value) => format!("return {};", show(value)),
            None => "return;".to_string(),
        },
        Stmt::Var(node) => match &node.initializer {
            Some(value) => format!("var {} = {};", node.name.lexeme, show(value)),
            None => format!("var {};", node.name.lexeme),
        },
        Stmt::While(node) => {
            format!("while {} {}", show(&node.condition), show_statement(&node.body))
        }
    }
}

fn shape(source: &str) -> Vec<String> {
    let (statements, errors) = parse(source);
    assert_eq!(errors, Vec::<String>::new());
    statements.iter().map(show_statement).collect()
}

#[test]
fn printer_writes_prefix_form() {
    let minus = Token::new(TokenType::Minus, "-".to_string(), None, 1);
    let star = Token::new(TokenType::Star, "*".to_string(), None, 1);
    let expr = Expr::Binary(BinaryExpr::new(
        Rc::new(Expr::Unary(UnaryExpr::new(
            minus,
            Rc::new(Expr::Literal(LiteralExpr::new(Some(Literal::Number(123f64.to_bits()))))),
        ))),
        star,
        Rc::new(Expr::Grouping(GroupingExpr::new(Rc::new(Expr::Literal(LiteralExpr::new(
            Some(Literal::Number(45.67f64.to_bits())),
        )))))),
    ));
    assert_eq!(show(&expr), "(* (- 123) (group 45.67))");
    assert_eq!(show(&Expr::Literal(LiteralExpr::new(None))), "nil");
    assert_eq!(show(&Expr::Literal(LiteralExpr::new(Some(Literal::Bool(true))))), "true");
    assert_eq!(
        show(&Expr::Literal(LiteralExpr::new(Some(Literal::String("s".to_string()))))),
        "s"
    );
    assert_eq!(
        show(&Expr::Variable(VariableExpr::new(Token::new(
            TokenType::Identifier,
            "name".to_string(),
            None,
            1
        )))),
        "name"
    );
}

#[test]
fn binary_operators_group_by_precedence() {
    assert_eq!(shape("1 + 2 * 3;"), vec!["(+ 1 (* 2 3));"]);
    assert_eq!(shape("1 * 2 + 3;"), vec!["(+ (* 1 2) 3);"]);
    assert_eq!(shape("1 < 2 == 3 >= 4;"), vec!["(== (< 1 2) (>= 3 4));"]);
    assert_eq!(shape("a or b and c == d;"), vec!["(or a (and b (== c d)));"]);
    assert_eq!(shape("-a * !b;"), vec!["(* (- a) (! b));"]);
    assert_eq!(shape("!!a;"), vec!["(! (! a));"]);
}

#[test]
fn binary_operators_group_to_the_left() {
    assert_eq!(shape("1 - 2 - 3;"), vec!["(- (- 1 2) 3);"]);
    assert_eq!(shape("8 / 4 / 2;"), vec!["(/ (/ 8 4) 2);"]);
    assert_eq!(shape("a or b or c;"), vec!["(or (or a b) c);"]);
    assert_eq!(shape("a != b != c;"), vec!["(!= (!= a b) c);"]);
}

#[test]
fn assignment_groups_to_the_right() {
    assert_eq!(shape("a = b = c + 1;"), vec!["(= a (= b (+ c 1)));"]);
}

#[test]
fn grouping_is_kept() {
    assert_eq!(shape("(1 + 2) * 3;"), vec!["(* (group (+ 1 2)) 3);"]);
    assert_eq!(shape("((a));"), vec!["(group (group a));"]);
}

#[test]
fn calls_take_their_arguments() {
    assert_eq!(shape("f();"), vec!["(call f);"]);
    assert_eq!(shape("f(1, a + 2)(b);"), vec!["(call (call f 1 (+ a 2)) b);"]);
    assert_eq!(shape("-f(x);"), vec!["(- (call f x));"]);
}

#[test]
fn literals_are_read_from_their_tokens() {
    assert_eq!(
        shape("true; false; nil; 2.5; \"text\";"),
        vec!["true;", "false;", "nil;", "2.5;", "text;"]
    );
}

#[test]
fn statements_keep_their_parts() {
    assert_eq!(shape("print 1;"), vec!["print 1;"]);
    assert_eq!(shape("var a; var b = 2;"), vec!["var a;", "var b = 2;"]);
    assert_eq!(shape("{ var a = 1; { print a; } }"), vec!["{var a = 1; {print a;}}"]);
    assert_eq!(shape("{}"), vec!["{}"]);
    assert_eq!(shape("if (a) print 1;"), vec!["if a print 1;"]);
    assert_eq!(
        shape("if (a) print 1; else if (b) print 2; else print 3;"),
        vec!["if a print 1; else if b print 2; else print 3;"]
    );
    assert_eq!(shape("while (a < 3) a = a + 1;"), vec!["while (< a 3) (= a (+ a 1));"]);
    assert_eq!(
        shape("fun add(a, b) { return a + b; } fun none() { return; }"),
        vec!["fun add(a,b) {return (+ a b);}", "fun none() {return;}"]
    );
}

#[test]
fn else_belongs_to_the_nearest_if() {
    assert_eq!(
        shape("if (a) if (b) print 1; else print 2;"),
        vec!["if a if b print 1; else print 2;"]
    );
    let (statements, _) = parse("if (a) if (b) print 1; else print 2;");
    match &statements[0] {
        Stmt::If(outer) => assert!(outer.else_branch.is_none()),
        other => panic!("unexpected {:?}", other),
    }
}

#[test]
fn for_stands_for_a_while() {
    assert_eq!(
        shape("for (var i = 0; i < 3; i = i + 1) print i;"),
        vec!["{var i = 0; while (< i 3) {print i; (= i (+ i 1));}}"]
    );
    assert_eq!(shape("for (;;) print 1;"), vec!["while true print 1;"]);
    assert_eq!(shape("for (i = 0;;) print 1;"), vec!["{(= i 0); while true print 1;}"]);
    assert_eq!(shape("for (; i < 2;) print 1;"), vec!["while (< i 2) print 1;"]);
    assert_eq!(shape("for (;; i = 1) {}"), vec!["while true {{} (= i 1);}"]);
}

#[test]
fn return_keeps_its_keyword() {
    let (statements, _) = parse("fun f() {\n return 1; }");
    match &statements[0] {
        Stmt::Function(function) => match &function.body[0] {
            Stmt::Return(node) => {
                assert_eq!(node.keyword.token_type, TokenType::Return);
                assert_eq!(node.keyword.line, 2);
            }
            other => panic!("unexpected {:?}", other),
        },
        other => panic!("unexpected {:?}", other),
    }
}

#[test]
fn call_keeps_its_closing_parenthesis() {
    let (statements, _) = parse("f(1,\n 2\n);");
    match &statements[0] {
        Stmt::Expression(node) => match &*node.expression {
            Expr::Call(call) => {
                assert_eq!(call.paren.token_type, TokenType::RightParen);
                assert_eq!(call.paren.line, 3);
                assert_eq!(call.arguments.len(), 2);
            }
            other => panic!("unexpected {:?}", other),
        },
        other => panic!("unexpected {:?}", other),
    }
}

#[test]
fn invalid_target_keeps_the_left_side() {
    let (statements, errors) = parse("a + b = c;");
    assert_eq!(errors, vec!["[line 1] Error at '=': Invalid assignment target."]);
    assert_eq!(statements.iter().map(show_statement).collect::<Vec<_>>(), vec!["(+ a b);"]);
    let (statements, errors) = parse("(a) = 1;");
    assert_eq!(errors.len(), 1);
    assert_eq!(statements.iter().map(show_statement).collect::<Vec<_>>(), vec!["(group a);"]);
}

#[test]
fn missing_pieces_are_named() {
    let complaint = |source: &str| parse(source).1;
    assert_eq!(complaint("print 1"), vec!["[line 1] Error at end: Expect ';' after value."]);
    assert_eq!(complaint("1 +;"), vec!["[line 1] Error at ';': Expression expected"]);
    assert_eq!(complaint("var 1;"), vec!["[line 1] Error at '1': Expect variable name."]);
    assert_eq!(
        complaint("var a = 1"),
        vec!["[line 1] Error at end: Expect ';' after variable declaration."]
    );
    assert_eq!(complaint("if a) b;"), vec!["[line 1] Error at 'a': Expect '(' after 'if'."]);
    assert_eq!(
        complaint("if (a b;"),
        vec!["[line 1] Error at 'b': Expect ')' after if condition."]
    );
    assert_eq!(
        complaint("while a) b;"),
        vec!["[line 1] Error at 'a': Expect '(' after 'while'."]
    );
    assert_eq!(
        complaint("while (a b;"),
        vec!["[line 1] Error at 'b': Expect ')' after condition."]
    );
    assert_eq!(complaint("for a;"), vec!["[line 1] Error at 'a': Expect '(' after 'for'."]);
    assert_eq!(
        complaint("for (;a b) c;"),
        vec!["[line 1] Error at 'b': Expect ';' after loop condition."]
    );
    assert_eq!(
        complaint("for (;;a b) c;"),
        vec!["[line 1] Error at 'b': Expect ')' after for clauses."]
    );
    assert_eq!(complaint("{ a;"), vec!["[line 1] Error at end: Expect '}' after block."]);
    assert_eq!(
        complaint("return 1"),
        vec!["[line 1] Error at end: Expect ';' after return value."]
    );
    assert_eq!(complaint("f(a;"), vec!["[line 1] Error at ';': Expect ')' after arguments."]);
    assert_eq!(complaint("fun (a) {}"), vec!["[line 1] Error at '(': Expect function name"]);
    assert_eq!(
        complaint("fun f a) {}"),
        vec!["[line 1] Error at 'a': Expect '(' after function name."]
    );
    assert_eq!(complaint("fun f(1) {}"), vec!["[line 1] Error at '1': Expect parameter name."]);
    assert_eq!(
        complaint("fun f(a, ) {}"),
        vec!["[line 1] Error at ')': Expect parameter name."]
    );
    assert_eq!(
        complaint("fun f(a b) {}"),
        vec!["[line 1] Error at 'b': Expect ')' after parameters."]
    );
    assert_eq!(
        complaint("fun f(a) print a;"),
        vec!["[line 1] Error at 'print': Expect '{' before function body."]
    );
    assert_eq!(complaint("(a;"), vec!["[line 1] Error at ';': Expect ')' after expression."]);
}

#[test]
fn parsing_goes_on_behind_a_semicolon() {
    let (statements, errors) = parse("print 1;\nprint + ;\nprint 2;\nvar = 3; print 4;");
    assert_eq!(
        errors,
        vec![
            "[line 2] Error at '+': Expression expected",
            "[line 4] Error at '=': Expect variable name."
        ]
    );
    assert_eq!(
        statements.iter().map(show_statement).collect::<Vec<_>>(),
        vec!["print 1;", "print 2;", "print 4;"]
    );
}

#[test]
fn parsing_goes_on_before_a_statement_keyword() {
    let (statements, errors) = parse("a b c var d = 1; ) ) print 2; + if (a) print 3;");
    assert_eq!(errors.len(), 3);
    assert_eq!(
        statements.iter().map(show_statement).collect::<Vec<_>>(),
        vec!["var d = 1;", "print 2;", "if a print 3;"]
    );
}

#[test]
fn an_error_in_a_block_ends_the_block() {
    let (statements, errors) = parse("{ print 1; print ; print 2; } print 3;");
    assert_eq!(
        errors,
        vec![
            "[line 1] Error at ';': Expression expected",
            "[line 1] Error at '}': Expression expected"
        ]
    );
    assert_eq!(statements.iter().map(show_statement).collect::<Vec<_>>(), vec!["print 3;"]);
    let (statements, errors) = parse("{ print ; } print 3;");
    assert_eq!(errors, vec!["[line 1] Error at ';': Expression expected"]);
    assert_eq!(statements.iter().map(show_statement).collect::<Vec<_>>(), vec!["print 3;"]);
}

fn call_with(count: usize) -> String {
    let arguments = (0..count).map(|i| format!("a{}", i)).collect::<Vec<_>>().join(", ");
    format!("f({});", arguments)
}

#[test]
fn up_to_255_arguments_pass() {
    let (statements, errors) = parse(&call_with(255));
    assert!(errors.is_empty());
    match &statements[0] {
        Stmt::Expression(node) => match &*node.expression {
            Expr::Call(call) => assert_eq!(call.arguments.len(), 255),
            other => panic!("unexpected {:?}", other),
        },
        other => panic!("unexpected {:?}", other),
    }
}

#[test]
fn more_than_255_arguments_are_reported_and_parsed() {
    let (statements, errors) = parse(&call_with(257));
    assert_eq!(
        errors,
        vec![
            "[line 1] Error at 'a255': Can't have more than 255 arguments.",
            "[line 1] Error at 'a256': Can't have more than 255 arguments."
        ]
    );
    match &statements[0] {
        Stmt::Expression(node) => match &*node.expression {
            Expr::Call(call) => assert_eq!(call.arguments.len(), 257),
            other => panic!("unexpected {:?}", other),
        },
        other => panic!("unexpected {:?}", other),
    }
}

#[test]
fn more_than_255_parameters_are_reported_and_parsed() {
    let parameters = (0..256).map(|i| format!("p{}", i)).collect::<Vec<_>>().join(", ");
    let (statements, errors) = parse(&format!("fun f({}) {{}}", parameters));
    assert_eq!(errors, vec!["[line 1] Error at 'p255': Can't have more than 255 parameters."]);
    match &statements[0] {
        Stmt::Function(function) => assert_eq!(function.params.len(), 256),
        other => panic!("unexpected {:?}", other),
    }
}

#[test]
fn empty_token_list_parses_to_nothing() {
    let (statements, errors) = parse("");
    assert!(statements.is_empty());
    assert!(errors.is_empty());
}

#[test]
fn parsing_the_written_form_again_gives_the_same_tree() {
    for source in [
        "1 + 2 * 3 - 4 / 5;",
        "a = b or c and !d == -e;",
        "f(a, g(b))(c) <= (1 + 2);",
    ] {
        let first = shape(source);
        let infix = |expr: &Expr| unparse(expr);
        let (statements, _) = parse(source);
        let again = match &statements[0] {
            Stmt::Expression(node) => format!("{};", infix(&node.expression)),
            other => panic!("unexpected {:?}", other),
        };
        assert_eq!(shape(&again), first, "{}", again);
    }
}

fn unparse(expr: &Expr) -> String {
    match expr {
        Expr::Assign(node) => format!("{} = {}", node.name.lexeme, unparse(&node.value)),
        Expr::Binary(node) => {
            format!("{} {} {}", unparse(&node.left), node.operator.lexeme, unparse(&node.right))
        }
        Expr::Call(node) => format!(
            "{}({})",
            unparse(&node.callee),
            node.arguments.iter().map(|a| unparse(a)).collect::<Vec<_>>().join(", ")
        ),
        Expr::Grouping(node) => format!("({})", unparse(&node.expression)),
        Expr::Literal(_) => show(expr),
        Expr::Logical(node) => {
            format!("{} {} {}", unparse(&node.left), node.operator.lexeme, unparse(&node.right))
        }
        Expr::Unary(node) => format!("{}{}", node.operator.lexeme, unparse(&node.right)),
        Expr::Variable(node) => node.name.lexeme.clone(),
    }
}

#[test]
fn errors_are_parse_errors_at_their_token() {
    let tokens = tokens_of("print\n;");
    let mut parser = Parser::new(&tokens);
    parser.parse();
    match &parser.errors()[0] {
        LoxError::ParseError { token, message } => {
            assert_eq!(token.token_type, TokenType::Semicolon);
            assert_eq!(token.line, 2);
            assert_eq!(message, "Expression expected");
        }
        other => panic!("unexpected {:?}", other),
    }
}
