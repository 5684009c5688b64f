use rlox::error_reporter::LoxError;
use rlox::literal::Literal;
use rlox::scanner::Scanner;
use rlox::token::Token;
use rlox::token_type::TokenType;

fn scan(source: &str) -> (Vec<Token>, Vec<LoxError>) {
    let mut scanner = Scanner::new(source);
    scanner.scan_tokens();
    scanner.finish()
}

fn kinds(source: &str) -> Vec<TokenType> {
    scan(source).0.iter().map(|token| token.token_type).collect()
}

fn complaints(source: &str) -> Vec<(u32, String)> {
    scan(source)
        .1
        .iter()
        .map(|error| match error {
            LoxError::ScanError { line, message } => (*line, message.clone()),
            other => panic!("not a scan error: {:?}", other),
        })
        .collect()
}

#[test]
fn empty_source_gives_only_the_end_token() {
    let (tokens, errors) = scan("");
    assert_eq!(tokens.len(), 1);
    assert_eq!(tokens[0].token_type, TokenType::EOF);
    assert_eq!(tokens[0].lexeme, "");
    assert_eq!(tokens[0].line, 1);
    assert!(tokens[0].literal.is_none());
    assert!(errors.is_empty());
}

#[test]
fn punctuation_is_one_token_each() {
    assert_eq!(
        kinds("(){},.-+;*/"),
        vec![
            TokenType::LeftParen,
            TokenType::RightParen,
            TokenType::LeftBrace,
            TokenType::RightBrace,
            TokenType::Comma,
            TokenType::Dot,
            TokenType::Minus,
            TokenType::Plus,
            TokenType::Semicolon,
            TokenType::Star,
            TokenType::Slash,
            TokenType::EOF,
        ]
    );
}

#[test]
fn two_character_operators_take_their_equal_sign() {
    assert_eq!(
        kinds("! != = == > >= < <="),
        vec![
            TokenType::Bang,
            TokenType::BangEqual,
            TokenType::Equal,
            TokenType::EqualEqual,
            TokenType::Greater,
            TokenType::GreaterEqual,
            TokenType::Less,
            TokenType::LessEqual,
            TokenType::EOF,
        ]
    );
}

#[test]
fn operator_at_the_very_end_is_read() {
    assert_eq!(kinds("!"), vec![TokenType::Bang, TokenType::EOF]);
    assert_eq!(kinds("a="), vec![TokenType::Identifier, TokenType::Equal, TokenType::EOF]);
}

#[test]
fn trailing_dot_is_a_token_of_its_own() {
    let (tokens, errors) = scan("12.");
    assert!(errors.is_empty());
    assert_eq!(
        tokens.iter().map(|token| token.token_type).collect::<Vec<_>>(),
        vec![TokenType::Number, TokenType::Dot, TokenType::EOF]
    );
    assert_eq!(tokens[0].lexeme, "12");
    assert_eq!(tokens[1].lexeme, ".");
}

#[test]
fn number_with_fraction_is_one_token() {
    let (tokens, _) = scan("3.25 7");
    assert_eq!(tokens[0].token_type, TokenType::Number);
    assert_eq!(tokens[0].lexeme, "3.25");
    assert!(tokens[0].literal.is_none());
    assert_eq!(tokens[1].lexeme, "7");
    assert_eq!(tokens.len(), 3);
}

#[test]
fn last_character_of_the_source_is_scanned() {
    let (tokens, _) = scan("abc");
    assert_eq!(tokens[0].lexeme, "abc");
    let (tokens, _) = scan("12");
    assert_eq!(tokens[0].lexeme, "12");
    let (tokens, _) = scan(";");
    assert_eq!(tokens[0].token_type, TokenType::Semicolon);
}

#[test]
fn keywords_are_told_from_names() {
    assert_eq!(
        kinds("and class else false for fun if nil or print return super this true var while"),
        vec![
            TokenType::And,
            TokenType::Class,
            TokenType::Else,
            TokenType::False,
            TokenType::For,
            TokenType::Fun,
            TokenType::If,
            TokenType::Nil,
            TokenType::Or,
            TokenType::Print,
            TokenType::Return,
            TokenType::Super,
            TokenType::This,
            TokenType::True,
            TokenType::Var,
            TokenType::While,
            TokenType::EOF,
        ]
    );
    assert_eq!(
        kinds("classy _if or_ while9 Var"),
        vec![
            TokenType::Identifier,
            TokenType::Identifier,
            TokenType::Identifier,
            TokenType::Identifier,
            TokenType::Identifier,
            TokenType::EOF,
        ]
    );
}

#[test]
fn string_literal_excludes_its_quotes() {
    let (tokens, errors) = scan("\"hi there\"");
    assert!(errors.is_empty());
    assert_eq!(tokens[0].token_type, TokenType::String);
    assert_eq!(tokens[0].lexeme, "\"hi there\"");
    match &tokens[0].literal {
        Some(Literal::String(text)) => assert_eq!(text, "hi there"),
        other => panic!("unexpected literal {:?}", other),
    }
}

#[test]
fn string_may_span_lines() {
    let (tokens, errors) = scan("\"a\nb\"\nx");
    assert!(errors.is_empty());
    assert_eq!(tokens[0].token_type, TokenType::String);
    assert_eq!(tokens[0].line, 2);
    assert_eq!(tokens[1].lexeme, "x");
    assert_eq!(tokens[1].line, 3);
    assert_eq!(tokens[2].line, 3);
}

#[test]
fn unterminated_string_is_reported() {
    let (tokens, _) = scan("\"abc\nd");
    assert_eq!(tokens.len(), 1);
    assert_eq!(complaints("\"abc\nd"), vec![(2, "Unterminated string.".to_string())]);
}

#[test]
fn line_comment_runs_to_the_end_of_the_line() {
    let (tokens, errors) = scan("a // b c\nd");
    assert!(errors.is_empty());
    assert_eq!(tokens.len(), 3);
    assert_eq!(tokens[0].lexeme, "a");
    assert_eq!(tokens[1].lexeme, "d");
    assert_eq!(tokens[1].line, 2);
    assert_eq!(kinds("// only a comment"), vec![TokenType::EOF]);
}

#[test]
fn block_comments_nest() {
    let (tokens, errors) = scan("a /* one /* two */ still */ b");
    assert!(errors.is_empty());
    assert_eq!(tokens.len(), 3);
    assert_eq!(tokens[0].lexeme, "a");
    assert_eq!(tokens[1].lexeme, "b");
}

#[test]
fn block_comment_counts_lines() {
    let (tokens, errors) = scan("/* a\n b\n */ c");
    assert!(errors.is_empty());
    assert_eq!(tokens[0].lexeme, "c");
    assert_eq!(tokens[0].line, 3);
}

#[test]
fn unterminated_block_comment_is_reported_at_the_outermost_opener() {
    assert_eq!(
        complaints("x\n/* a\n /* b\n */ c\n"),
        vec![(
            2,
            "Don't forget to close a multiline comment with closing sign: '*/'.".to_string()
        )]
    );
    assert_eq!(kinds("x\n/* a\n /* b\n */ c\n"), vec![TokenType::Identifier, TokenType::EOF]);
}

#[test]
fn slash_star_at_the_end_is_an_open_comment() {
    assert_eq!(complaints("/*").len(), 1);
    assert_eq!(complaints("/* *").len(), 1);
    assert!(complaints("/**/").is_empty());
}

#[test]
fn unexpected_characters_do_not_stop_the_scanner() {
    let (tokens, errors) = scan("a @ b\n# c");
    assert_eq!(
        tokens.iter().map(|token| token.lexeme.clone()).collect::<Vec<_>>(),
        vec!["a", "b", "c", ""]
    );
    assert_eq!(errors.len(), 2);
    assert_eq!(
        complaints("a @ b\n# c"),
        vec![
            (1, "Unexpected character.".to_string()),
            (2, "Unexpected character.".to_string())
        ]
    );
}

#[test]
fn characters_outside_ascii_are_counted_one_by_one() {
    let (tokens, errors) = scan("\"h\u{e9}\" \u{e9} x");
    assert_eq!(tokens[0].lexeme, "\"h\u{e9}\"");
    assert_eq!(errors.len(), 1);
    assert_eq!(tokens[1].lexeme, "x");
}

#[test]
fn every_lexeme_is_a_part_of_the_source_and_the_end_token_is_last() {
    let source = "var a = 1.5; // c\nfun f(x) { return x >= 2 and !a; } /* k */ \"s\" @";
    let (tokens, _) = scan(source);
    let mut from = 0;
    for token in &tokens[..tokens.len() - 1] {
        let at = source[from..].find(token.lexeme.as_str()).expect("lexeme in source");
        assert!(!token.lexeme.is_empty());
        from += at + token.lexeme.len();
        assert_ne!(token.token_type, TokenType::EOF);
    }
    assert_eq!(tokens.last().unwrap().token_type, TokenType::EOF);
}

#[test]
fn lines_are_counted_from_one() {
    let (tokens, _) = scan("a\nb\n\nc");
    assert_eq!(tokens.iter().map(|token| token.line).collect::<Vec<_>>(), vec![1, 2, 4, 4]);
}

#[test]
fn scanning_again_adds_only_another_end_token() {
    let mut scanner = Scanner::new("a b");
    assert_eq!(scanner.scan_tokens().len(), 3);
    assert_eq!(scanner.scan_tokens().len(), 4);
    assert!(scanner.errors().is_empty());
}

#[test]
fn token_kinds_have_their_names() {
    assert_eq!(TokenType::LeftParen.name(), "LeftParen");
    assert_eq!(TokenType::EOF.name(), "EOF");
    assert_eq!(TokenType::GreaterEqual.name(), "GreaterEqual");
    assert_eq!(format!("{:?}", TokenType::While), TokenType::While.name());
    let token = Token::new(TokenType::Identifier, "abc".to_string(), None, 3);
    assert_eq!(token.describe(), "Identifier abc");
    let copy = token.clone();
    assert_eq!(copy.lexeme, "abc");
    assert_eq!(copy.line, 3);
    assert_eq!(copy.token_type, TokenType::Identifier);
}
