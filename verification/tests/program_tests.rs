use rlox::host::{Action, Event};
use rlox::lox::Lox;
use rlox::token_type::TokenType;

struct Run {
    out: Vec<String>,
    err: Vec<String>,
    code: u8,
}

fn answer(action: Action, out: &mut Vec<String>, err: &mut Vec<String>) -> Option<Event> {
    Some(match action {
        Action::Continue => Event::Done,
        Action::Decode { lexemes } => Event::Numbers(
            lexemes.iter().map(|lexeme| lexeme.parse::<f64>().unwrap().to_bits()).collect(),
        ),
        Action::Arithmetic { operator, left, right } => {
            let (a, b) = (f64::from_bits(left), f64::from_bits(right));
            let result = match operator {
                TokenType::Plus => a + b,
                TokenType::Minus => a - b,
                TokenType::Star => a * b,
                TokenType::Slash => a / b,
                other => panic!("not arithmetic: {:?}", other),
            };
            Event::Number(result.to_bits())
        }
        Action::Format { number } => Event::Text(format!("{}", f64::from_bits(number))),
        Action::Clock => Event::Number(1234567.0f64.to_bits()),
        Action::Print { text } => {
            out.push(text);
            Event::Done
        }
        Action::Report { lines } => {
            err.extend(lines);
            Event::Done
        }
        Action::Abort { error } => panic!("the run let an error through: {:?}", error),
        Action::Finish => return None,
    })
}

fn execute(source: &str) -> Run {
    let mut lox = Lox::new();
    let mut out = Vec::new();
    let mut err = Vec::new();
    let mut action = lox.run(source.to_string());
    let mut steps = 0;
    while let Some(event) = answer(action, &mut out, &mut err) {
        action = lox.resume(event);
        steps += 1;
        assert!(steps < 1_000_000, "the program does not end");
    }
    Run { out, err, code: lox.exit_code() }
}

fn prints(source: &str) -> Vec<String> {
    let run = execute(source);
    assert_eq!(run.err, Vec::<String>::new());
    assert_eq!(run.code, 0);
    run.out
}

#[test]
fn precedence_of_factor_over_term() {
    assert_eq!(prints("print 1 + 2 * 3;"), vec!["7"]);
}

#[test]
fn strings_are_joined() {
    assert_eq!(prints("var a = \"hi \"; var b = a + \"world\"; print b;"), vec!["hi world"]);
}

#[test]
fn while_counts_up() {
    assert_eq!(
        prints("var i = 0; while (i < 3) { print i; i = i + 1; }"),
        vec!["0", "1", "2"]
    );
}

#[test]
fn recursion_computes_fibonacci() {
    assert_eq!(
        prints("fun fib(n){ if (n<2) return n; return fib(n-1)+fib(n-2); } print fib(10);"),
        vec!["55"]
    );
}

#[test]
fn closure_keeps_its_counter() {
    assert_eq!(
        prints(
            "fun make(){ var c = 0; fun inc(){ c = c + 1; return c; } return inc; } \
             var f = make(); print f(); print f(); print f();"
        ),
        vec!["1", "2", "3"]
    );
}

#[test]
fn equality_across_kinds() {
    assert_eq!(prints("print \"a\" == 1;"), vec!["false"]);
    assert_eq!(prints("print nil == nil;"), vec!["true"]);
}

#[test]
fn undefined_variable_ends_the_run() {
    let run = execute("print x;");
    assert!(run.out.is_empty());
    assert_eq!(run.err, vec!["Undefined variable 'x'.\n[line 1]"]);
    assert_eq!(run.code, 70);
}

#[test]
fn number_and_string_are_joined() {
    assert_eq!(prints("print 1 + \"a\";"), vec!["1a"]);
    assert_eq!(prints("1 + \"a\";"), Vec::<String>::new());
    assert_eq!(prints("print \"a\" + 2.5;"), vec!["a2.5"]);
}

#[test]
fn inner_variable_shadows_the_outer_one() {
    assert_eq!(prints("var x = 1; { var x = 2; print x; } print x;"), vec!["2", "1"]);
}

#[test]
fn or_does_not_evaluate_its_right_operand_after_a_true_left_one() {
    let side = "fun side(){ print \"side\"; return true; } ";
    assert_eq!(prints(&format!("{}print true or side();", side)), vec!["true"]);
    assert_eq!(prints(&format!("{}print 1 or side();", side)), vec!["1"]);
    assert_eq!(prints(&format!("{}print false or side();", side)), vec!["side", "true"]);
    assert_eq!(prints(&format!("{}print nil or \"x\";", side)), vec!["x"]);
}

#[test]
fn and_does_not_evaluate_its_right_operand_after_a_false_left_one() {
    let side = "fun side(){ print \"side\"; return 3; } ";
    assert_eq!(prints(&format!("{}print false and side();", side)), vec!["false"]);
    assert_eq!(prints(&format!("{}print nil and side();", side)), vec!["nil"]);
    assert_eq!(prints(&format!("{}print true and side();", side)), vec!["side", "3"]);
}

#[test]
fn assignment_through_one_closure_is_seen_by_another() {
    assert_eq!(
        prints(
            "var set; var get; \
             { var shared = 1; \
               fun write(v) { shared = v; } \
               fun read() { return shared; } \
               set = write; get = read; } \
             print get(); set(5); print get(); set(\"x\"); print get();"
        ),
        vec!["1", "5", "x"]
    );
}

#[test]
fn closure_sees_later_assignment_in_its_scope() {
    assert_eq!(
        prints("var a = 1; fun show() { print a; } show(); a = 2; show();"),
        vec!["1", "2"]
    );
}

#[test]
fn closure_reads_through_the_scope_of_its_declaration() {
    assert_eq!(
        prints(
            "var a = \"global\"; \
             { fun show() { print a; } show(); var a = \"block\"; show(); }"
        ),
        vec!["global", "block"]
    );
    assert_eq!(
        prints(
            "var a = \"global\"; fun show() { print a; } \
             fun caller() { var a = \"caller\"; show(); } caller();"
        ),
        vec!["global"]
    );
}

#[test]
fn return_skips_the_rest_of_the_function() {
    assert_eq!(
        prints("fun f() { print \"a\"; return 1; print \"b\"; } print f(); print \"c\";"),
        vec!["a", "1", "c"]
    );
}

#[test]
fn return_leaves_loops_and_blocks() {
    assert_eq!(
        prints(
            "fun first(n) { var i = 0; while (true) { { if (i == n) { return i; } } i = i + 1; \
             print i; } print \"never\"; } print first(2); print \"after\";"
        ),
        vec!["1", "2", "2", "after"]
    );
}

#[test]
fn return_inside_an_argument_ends_only_the_inner_call() {
    assert_eq!(
        prints(
            "fun one() { return 1; } fun add(a, b) { return a + b; print \"no\"; } \
             print add(one(), add(one(), one()));"
        ),
        vec!["3"]
    );
}

#[test]
fn function_without_return_gives_nil() {
    assert_eq!(prints("fun f() { } print f(); fun g() { return; } print g();"), vec!["nil", "nil"]);
}

#[test]
fn return_outside_a_function_ends_the_run_silently() {
    let run = execute("print 1; return 2; print 3;");
    assert_eq!(run.out, vec!["1"]);
    assert!(run.err.is_empty());
    assert_eq!(run.code, 70);
}

#[test]
fn arithmetic_follows_the_host() {
    assert_eq!(prints("print 7 / 2;"), vec!["3.5"]);
    assert_eq!(prints("print (1 + 2) * 3;"), vec!["9"]);
    assert_eq!(prints("print 10 - 4 - 3;"), vec!["3"]);
    assert_eq!(prints("print -(2 * 3);"), vec!["-6"]);
    assert_eq!(prints("print 1 / 0;"), vec!["inf"]);
    assert_eq!(prints("print 0.1 + 0.2;"), vec!["0.30000000000000004"]);
}

#[test]
fn nan_is_not_equal_to_itself() {
    assert_eq!(prints("var n = 0 / 0; print n == n; print n != n;"), vec!["false", "true"]);
}

#[test]
fn comparisons_print_booleans() {
    assert_eq!(
        prints("print 1 < 2; print 2 <= 2; print 1 > 2; print 2 >= 3; print 1 == 1; print 1 != 1;"),
        vec!["true", "true", "false", "false", "true", "false"]
    );
}

#[test]
fn bang_negates_truthiness() {
    assert_eq!(
        prints("print !nil; print !0; print !\"\"; print !false; print !!true;"),
        vec!["true", "false", "false", "true", "true"]
    );
}

#[test]
fn if_chooses_a_branch() {
    assert_eq!(
        prints("if (1 < 2) print \"then\"; else print \"else\"; if (nil) print \"no\"; print \"end\";"),
        vec!["then", "end"]
    );
    assert_eq!(prints("if (false) print 1; else { print 2; print 3; }"), vec!["2", "3"]);
}

#[test]
fn for_runs_its_clauses_in_order() {
    assert_eq!(
        prints("for (var i = 0; i < 3; i = i + 1) print i;"),
        vec!["0", "1", "2"]
    );
    assert_eq!(
        prints("var i = 5; for (; i < 7;) { print i; i = i + 1; } print i;"),
        vec!["5", "6", "7"]
    );
    assert_eq!(
        prints("fun f() { for (;;) { return \"out\"; } } print f();"),
        vec!["out"]
    );
}

#[test]
fn for_variable_is_local_to_the_loop() {
    let run = execute("for (var i = 0; i < 1; i = i + 1) {} print i;");
    assert_eq!(run.err, vec!["Undefined variable 'i'.\n[line 1]"]);
    assert_eq!(run.code, 70);
}

#[test]
fn assignment_is_an_expression() {
    assert_eq!(prints("var a; var b; a = b = 3; print a; print b; print a = 4;"), vec!["3", "3", "4"]);
}

#[test]
fn variable_without_value_cannot_be_read() {
    let run = execute("var a;\nprint a;");
    assert!(run.out.is_empty());
    assert_eq!(run.err, vec!["Variable was not explicitly initialized.\n[line 2]"]);
    assert_eq!(run.code, 70);
    assert_eq!(prints("var a; a = 1; print a;"), vec!["1"]);
    assert_eq!(prints("var a = nil; print a;"), vec!["nil"]);
}

#[test]
fn assignment_to_an_unknown_name_fails() {
    let run = execute("print 1;\ny = 2;");
    assert_eq!(run.out, vec!["1"]);
    assert_eq!(run.err, vec!["Undefined variable 'y'.\n[line 2]"]);
    assert_eq!(run.code, 70);
}

#[test]
fn only_functions_can_be_called() {
    let run = execute("var a = 1;\na(2);");
    assert_eq!(run.err, vec!["Can only call functions and classes.\n[line 2]"]);
    assert_eq!(run.code, 70);
    let run = execute("\"text\"();");
    assert_eq!(run.err, vec!["Can only call functions and classes.\n[line 1]"]);
}

#[test]
fn arguments_are_evaluated_before_the_callee_is_checked() {
    let run = execute("fun side() { print \"arg\"; } nil(side());");
    assert_eq!(run.out, vec!["arg"]);
    assert_eq!(run.err, vec!["Can only call functions and classes.\n[line 1]"]);
}

#[test]
fn calls_need_as_many_arguments_as_parameters() {
    let run = execute("fun f(a) { return a; }\nprint f(1, 2);");
    assert!(run.out.is_empty());
    assert_eq!(run.err, vec!["Expected 1 arguments but got 2.\n[line 2]"]);
    assert_eq!(run.code, 70);
    let run = execute("fun f(a, b) { return a; } f();");
    assert_eq!(run.err, vec!["Expected 2 arguments but got 0.\n[line 1]"]);
    let run = execute("clock(1);");
    assert_eq!(run.err, vec!["Expected 0 arguments but got 1.\n[line 1]"]);
}

#[test]
fn arguments_are_evaluated_left_to_right() {
    assert_eq!(
        prints(
            "fun show(x) { print x; return x; } fun add(a, b, c) { return a + b + c; } \
             print add(show(1), show(2), show(3));"
        ),
        vec!["1", "2", "3", "6"]
    );
}

#[test]
fn type_errors_carry_the_operator() {
    let run = execute("print 1;\nprint -\"a\";");
    assert_eq!(run.out, vec!["1"]);
    assert_eq!(run.err, vec!["Operand must be a number.\n[line 2]"]);
    assert_eq!(run.code, 70);
    let run = execute("print \"a\" * 2;");
    assert_eq!(run.err, vec!["Operands must be numbers\n[line 1]"]);
    let run = execute("print nil + 1;");
    assert_eq!(run.err, vec!["Operands must be two numbers or two strings.\n[line 1]"]);
    let run = execute("print true < 1;");
    assert_eq!(run.err, vec!["Operands must be two numbers or two strings.\n[line 1]"]);
}

#[test]
fn runtime_error_inside_a_function_ends_the_run() {
    let run = execute("fun f() { print \"in\"; return nil + 1; } print \"a\"; f(); print \"b\";");
    assert_eq!(run.out, vec!["a", "in"]);
    assert_eq!(run.err.len(), 1);
    assert_eq!(run.code, 70);
}

#[test]
fn functions_print_their_names() {
    assert_eq!(prints("fun hello() {} print hello;"), vec!["<fn hello>"]);
    assert_eq!(prints("print clock;"), vec!["native clock function"]);
}

#[test]
fn functions_are_equal_to_themselves() {
    assert_eq!(
        prints("fun f() {} fun g() {} var h = f; print f == h; print f == g; print clock == clock; print f == clock; print f != g;"),
        vec!["true", "false", "true", "false", "true"]
    );
}

#[test]
fn clock_is_the_hosts() {
    assert_eq!(prints("print clock();"), vec!["1234567"]);
    assert_eq!(prints("print clock() - clock();"), vec!["0"]);
}

#[test]
fn parameters_shadow_globals() {
    assert_eq!(
        prints("var a = 1; fun f(a) { a = a + 1; return a; } print f(5); print a;"),
        vec!["6", "1"]
    );
}

#[test]
fn block_scopes_end_with_the_block() {
    let run = execute("{ var inner = 1; print inner; } print inner;");
    assert_eq!(run.out, vec!["1"]);
    assert_eq!(run.err, vec!["Undefined variable 'inner'.\n[line 1]"]);
}

#[test]
fn scan_errors_keep_the_program_from_running() {
    let run = execute("print 1;\n@\nprint \"open");
    assert!(run.out.is_empty());
    assert_eq!(
        run.err,
        vec![
            "[line 2] Error : Unexpected character.",
            "[line 3] Error : Unterminated string.",
            "[line 3] Error at end: Expression expected",
        ]
    );
    assert_eq!(run.code, 65);
}

#[test]
fn parse_errors_keep_the_program_from_running() {
    let run = execute("print 1;\nprint ;\nvar = 2;\nprint 3");
    assert!(run.out.is_empty());
    assert_eq!(
        run.err,
        vec![
            "[line 2] Error at ';': Expression expected",
            "[line 3] Error at '=': Expect variable name.",
            "[line 4] Error at end: Expect ';' after value.",
        ]
    );
    assert_eq!(run.code, 65);
}

#[test]
fn invalid_assignment_target_is_reported() {
    let run = execute("var a = 1; a + 1 = 2; print a;");
    assert!(run.out.is_empty());
    assert_eq!(run.err, vec!["[line 1] Error at '=': Invalid assignment target."]);
    assert_eq!(run.code, 65);
}

#[test]
fn grouping_needs_its_closing_parenthesis() {
    let run = execute("print (1 + 2;");
    assert_eq!(run.err, vec!["[line 1] Error at ';': Expect ')' after expression."]);
    assert_eq!(run.code, 65);
}

#[test]
fn empty_source_runs_to_nothing() {
    let run = execute("");
    assert!(run.out.is_empty());
    assert!(run.err.is_empty());
    assert_eq!(run.code, 0);
}

#[test]
fn number_literals_are_asked_for_in_order() {
    let mut lox = Lox::new();
    match lox.run("print 1.5 + 20; var three = 3; // 4\n\"5\"".to_string()) {
        Action::Decode { lexemes } => assert_eq!(lexemes, vec!["1.5", "20", "3"]),
        other => panic!("unexpected {:?}", other),
    }
    match lox.resume(Event::Done) {
        Action::Decode { lexemes } => assert_eq!(lexemes, vec!["1.5", "20", "3"]),
        other => panic!("unexpected {:?}", other),
    }
    match lox.resume(Event::Numbers(vec![1, 2])) {
        Action::Decode { lexemes } => assert_eq!(lexemes.len(), 3),
        other => panic!("unexpected {:?}", other),
    }
    assert_eq!(lox.exit_code(), 0);
}

#[test]
fn wrong_answers_are_asked_again() {
    let mut lox = Lox::new();
    let mut out = Vec::new();
    let mut err = Vec::new();
    let mut action = lox.run("print 1 + 2;".to_string());
    loop {
        match action {
            Action::Arithmetic { .. } => break,
            other => action = lox.resume(answer(other, &mut out, &mut err).unwrap()),
        }
    }
    match lox.resume(Event::Text("3".to_string())) {
        Action::Arithmetic { operator, left, right } => {
            assert_eq!(operator, TokenType::Plus);
            assert_eq!(left, 1.0f64.to_bits());
            assert_eq!(right, 2.0f64.to_bits());
        }
        other => panic!("unexpected {:?}", other),
    }
    match lox.resume(Event::Number(3.0f64.to_bits())) {
        Action::Continue => {}
        other => panic!("unexpected {:?}", other),
    }
    let mut action = lox.resume(Event::Done);
    loop {
        match action {
            Action::Format { number } => {
                assert_eq!(number, 3.0f64.to_bits());
                break;
            }
            other => action = lox.resume(answer(other, &mut out, &mut err).unwrap()),
        }
    }
    match lox.resume(Event::Done) {
        Action::Format { number } => assert_eq!(number, 3.0f64.to_bits()),
        other => panic!("unexpected {:?}", other),
    }
    match lox.resume(Event::Text("three".to_string())) {
        Action::Print { text } => assert_eq!(text, "three"),
        other => panic!("unexpected {:?}", other),
    }
}

#[test]
fn clock_failure_is_a_system_error() {
    let mut lox = Lox::new();
    let mut out = Vec::new();
    let mut err = Vec::new();
    let mut action = lox.run("print 1; print clock(); print 2;".to_string());
    loop {
        match action {
            Action::Clock => break,
            other => action = lox.resume(answer(other, &mut out, &mut err).unwrap()),
        }
    }
    match lox.resume(Event::Failure("1.5s".to_string())) {
        Action::Report { lines } => {
            assert_eq!(lines, vec!["System Error: Invalid duration: 1.5s"])
        }
        other => panic!("unexpected {:?}", other),
    }
    assert_eq!(out, vec!["1"]);
    assert!(lox.had_runtime_error());
    assert!(!lox.had_error());
    assert_eq!(lox.exit_code(), 70);
    match lox.resume(Event::Done) {
        Action::Finish => {}
        other => panic!("unexpected {:?}", other),
    }
}

#[test]
fn flags_follow_the_runs() {
    let mut lox = Lox::new();
    assert_eq!(lox.exit_code(), 0);
    let mut out = Vec::new();
    let mut err = Vec::new();
    let mut action = lox.run("print ;".to_string());
    while let Some(event) = answer(action, &mut out, &mut err) {
        action = lox.resume(event);
    }
    assert!(lox.had_error());
    assert_eq!(lox.exit_code(), 65);
    lox.clear_error();
    assert!(!lox.had_error());
    assert_eq!(lox.exit_code(), 0);
    let mut action = lox.run("print 4;".to_string());
    while let Some(event) = answer(action, &mut out, &mut err) {
        action = lox.resume(event);
    }
    assert_eq!(out, vec!["4"]);
    assert_eq!(lox.exit_code(), 0);
}

#[test]
fn each_run_starts_with_fresh_globals() {
    let mut lox = Lox::new();
    let mut out = Vec::new();
    let mut err = Vec::new();
    let mut action = lox.run("var kept = 1;".to_string());
    while let Some(event) = answer(action, &mut out, &mut err) {
        action = lox.resume(event);
    }
    let mut action = lox.run("print kept;".to_string());
    while let Some(event) = answer(action, &mut out, &mut err) {
        action = lox.resume(event);
    }
    assert_eq!(err, vec!["Undefined variable 'kept'.\n[line 1]"]);
}

#[test]
fn deep_recursion_needs_no_host_stack() {
    assert_eq!(
        prints("fun down(n) { if (n == 0) return 0; return down(n - 1); } print down(20000);"),
        vec!["0"]
    );
}
