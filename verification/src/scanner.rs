use vstd::prelude::*;
use vstd::string::StringExecFns;
use crate::error_reporter::LoxError;
use crate::lexical::{
    comment, faults, holds, is_alpha, is_alphanumeric, is_digit, is_part_of, keyword,
    lemma_lexemes, lemma_run_end, lemma_step, lexemes, newlines, number_end, run_end, step,
    unterminated_comment, word_kind, Fault, Item, Lexeme, Run, Step,
};
use crate::literal::Literal;
use crate::text::{characters, spells_word, text_between};
use crate::token::Token;
use crate::token_type::TokenType;

verus! {

/// Turns source text into tokens. Lexical errors do not stop it: they are
/// collected, and scanning goes on behind them.
pub struct Scanner {
    source: Vec<char>,
    tokens: Vec<Token>,
    errors: Vec<LoxError>,
    start: usize,
    current: usize,
    line: u32,
}

/// Whether `token` is the token that `lexeme` describes: its kind and line,
/// the part of the source as its text, and for a string the characters
/// between the quotes as its literal. A number's literal is left for the host
/// to decode from the text.
pub open spec fn spells(token: Token, lexeme: Lexeme, source: Seq<char>) -> bool {
    &&& token.token_type == lexeme.kind
    &&& token.lexeme@ == source.subrange(lexeme.start, lexeme.end)
    &&& token.line == lexeme.line
    &&& if lexeme.kind == TokenType::String {
        token.literal matches Some(Literal::String(text)) && text@ == source.subrange(
            lexeme.start + 1,
            lexeme.end - 1,
        )
    } else {
        token.literal is None
    }
}

/// Whether `error` is the lexical error that `fault` describes.
pub open spec fn reports(error: LoxError, fault: Fault) -> bool {
    error matches LoxError::ScanError { line, message } && line == fault.line && message@
        == fault.message
}

/// `tokens` from index `first` on are the tokens that `lexemes` describes.
pub open spec fn tokens_spell(
    tokens: Seq<Token>,
    first: int,
    lexemes: Seq<Lexeme>,
    source: Seq<char>,
) -> bool {
    &&& tokens.len() == first + lexemes.len()
    &&& forall|i: int| 0 <= i < lexemes.len() ==> spells(#[trigger] tokens[first + i], lexemes[i], source)
}

/// `errors` from index `first` on are the errors that `faults` describes.
pub open spec fn errors_report(errors: Seq<LoxError>, first: int, faults: Seq<Fault>) -> bool {
    &&& errors.len() == first + faults.len()
    &&& forall|i: int| 0 <= i < faults.len() ==> reports(#[trigger] errors[first + i], faults[i])
}

impl Scanner {
    /// The characters being scanned.
    pub closed spec fn source(&self) -> Seq<char> {
        self.source@
    }

    /// The position of the next character to read.
    pub closed spec fn position(&self) -> int {
        self.current as int
    }

    /// The line of the next character to read, counted from 1.
    pub closed spec fn line(&self) -> int {
        self.line as int
    }

    /// The tokens found so far.
    pub closed spec fn found(&self) -> Seq<Token> {
        self.tokens@
    }

    /// The errors met so far.
    pub closed spec fn failed(&self) -> Seq<LoxError> {
        self.errors@
    }

    /// The scanner stands inside its source, which is short enough for the
    /// line counter, and has counted no more lines than characters.
    pub closed spec fn wf(&self) -> bool {
        &&& self.start <= self.current <= self.source@.len()
        &&& self.source@.len() < u32::MAX
        &&& 1 <= self.line <= 1 + self.current
    }

    /// The state after one step that began in `before` and found `found`.
    pub open spec fn stepped(&self, before: Scanner, found: Step) -> bool {
        &&& self.source() == before.source()
        &&& self.position() == found.end
        &&& self.line() == found.line
        &&& match found.item {
            Item::Token(kind) => {
                &&& self.failed() == before.failed()
                &&& self.found().len() == before.found().len() + 1
                &&& self.found().drop_last() == before.found()
                &&& spells(
                    self.found().last(),
                    Lexeme { kind, start: before.position(), end: found.end, line: found.line },
                    self.source(),
                )
            },
            Item::Nothing => self.found() == before.found() && self.failed() == before.failed(),
            Item::Error { line, message } => {
                &&& self.found() == before.found()
                &&& self.failed().len() == before.failed().len() + 1
                &&& self.failed().drop_last() == before.failed()
                &&& reports(self.failed().last(), Fault { line, message })
            },
        }
    }

    /// A scanner at the start of `source`.
    pub fn new(source: &str) -> (scanner: Scanner)
        requires
            source@.len() < u32::MAX,
        ensures
            scanner.wf(),
            scanner.source() == source@,
            scanner.position() == 0,
            scanner.line() == 1,
            scanner.found() == Seq::<Token>::empty(),
            scanner.failed() == Seq::<LoxError>::empty(),
    {
        Scanner {
            source: characters(source),
            tokens: Vec::new(),
            errors: Vec::new(),
            start: 0,
            current: 0,
            line: 1,
        }
    }

    /// Scans the rest of the source: adds the tokens from the current position
    /// on, the end-of-input token last, and the errors met on the way.
    pub fn scan_tokens(&mut self) -> (tokens: &Vec<Token>)
        requires
            old(self).wf(),
        ensures
            final(self).wf(),
            tokens@ == final(self).found(),
            final(self).source() == old(self).source(),
            final(self).position() == old(self).source().len(),
            final(self).found().take(old(self).found().len() as int) == old(self).found(),
            tokens_spell(
                final(self).found(),
                old(self).found().len() as int,
                lexemes(old(self).source(), old(self).position(), old(self).line()),
                old(self).source(),
            ),
            final(self).found().last().token_type == TokenType::EOF,
            forall|i: int|
                old(self).found().len() <= i < final(self).found().len() ==> is_part_of(
                    (#[trigger] final(self).found()[i]).lexeme@,
                    old(self).source(),
                ),
            final(self).failed().take(old(self).failed().len() as int) == old(self).failed(),
            errors_report(
                final(self).failed(),
                old(self).failed().len() as int,
                faults(old(self).source(), old(self).position(), old(self).line()),
            ),
    {
        let ghost source = self.source@;
        let ghost first = self.tokens@.len() as int;
        let ghost first_error = self.errors@.len() as int;
        let ghost all = lexemes(source, self.current as int, self.line as int);
        let ghost all_faults = faults(source, self.current as int, self.line as int);
        let ghost mut done: Seq<Lexeme> = Seq::empty();
        let ghost mut met: Seq<Fault> = Seq::empty();
        assert(done + all == all);
        assert(met + all_faults == all_faults);
        while !self.is_at_end()
            invariant
                self.wf(),
                self.source@ == source,
                first == old(self).tokens@.len(),
                first_error == old(self).errors@.len(),
                self.tokens@.take(first) == old(self).tokens@,
                tokens_spell(self.tokens@, first, done, source),
                done + lexemes(source, self.current as int, self.line as int) == all,
                self.errors@.take(first_error) == old(self).errors@,
                errors_report(self.errors@, first_error, met),
                met + faults(source, self.current as int, self.line as int) == all_faults,
            decreases self.source@.len() - self.current,
        {
            self.start = self.current;
            let ghost before = *self;
            self.scan_token();
            proof {
                assert(self.stepped(before, step(source, before.current as int, before.line as int)));
                let found = step(source, before.current as int, before.line as int);
                lemma_step(source, before.current as int, before.line as int);
                let rest = lexemes(source, found.end, found.line);
                let rest_faults = faults(source, found.end, found.line);
                match found.item {
                    Item::Token(kind) => {
                        let lexeme = Lexeme {
                            kind,
                            start: before.current as int,
                            end: found.end,
                            line: found.line,
                        };
                        assert(done.push(lexeme) + rest == done + (seq![lexeme] + rest));
                        assert(self.tokens@.take(first) =~= self.tokens@.drop_last().take(first));
                        assert forall|i: int| 0 <= i < done.len() implies spells(
                            #[trigger] self.tokens@[first + i],
                            done[i],
                            source,
                        ) by {
                            assert(self.tokens@[first + i] == before.tokens@[first + i]);
                        }
                        done = done.push(lexeme);
                    },
                    Item::Nothing => {},
                    Item::Error { line, message } => {
                        let fault = Fault { line, message };
                        assert(met.push(fault) + rest_faults == met + (seq![fault] + rest_faults));
                        assert(self.errors@.take(first_error) =~= self.errors@.drop_last().take(
                            first_error,
                        ));
                        assert forall|i: int| 0 <= i < met.len() implies reports(
                            #[trigger] self.errors@[first_error + i],
                            met[i],
                        ) by {
                            assert(self.errors@[first_error + i] == before.errors@[first_error + i]);
                        }
                        met = met.push(fault);
                    },
                }
            }
        }
        let ghost last = Lexeme {
            kind: TokenType::EOF,
            start: source.len() as int,
            end: source.len() as int,
            line: self.line as int,
        };
        self.tokens.push(Token::new(TokenType::EOF, String::new(), None, self.line));
        proof {
            assert(done + seq![last] == done.push(last));
            assert(source.subrange(last.start, last.end) == Seq::<char>::empty());
            assert(self.tokens@.take(first) =~= self.tokens@.drop_last().take(first));
            assert(met + Seq::<Fault>::empty() == met);
            lemma_lexemes(source, old(self).current as int, old(self).line as int);
            assert forall|i: int| first <= i < self.tokens@.len() implies is_part_of(
                (#[trigger] self.tokens@[i]).lexeme@,
                source,
            ) by {
                let lexeme = all[i - first];
                assert(spells(self.tokens@[first + (i - first)], lexeme, source));
                assert(self.tokens@[i].lexeme@ == source.subrange(lexeme.start, lexeme.end));
            }
        }
        &self.tokens
    }

    /// The errors met so far, in the order in which they were met.
    pub fn errors(&self) -> (errors: &Vec<LoxError>)
        ensures
            errors@ == self.failed(),
    {
        &self.errors
    }

    /// Gives up the scanner for what it found: the tokens and the errors.
    pub fn finish(self) -> (parts: (Vec<Token>, Vec<LoxError>))
        ensures
            parts.0@ == self.found(),
            parts.1@ == self.failed(),
    {
        (self.tokens, self.errors)
    }

    fn is_at_end(&self) -> (at_end: bool)
        ensures
            at_end == (self.current >= self.source@.len()),
    {
        self.current >= self.source.len()
    }

    fn advance(&mut self) -> (c: char)
        requires
            old(self).current < old(self).source@.len(),
        ensures
            *final(self) == (Scanner { current: (old(self).current + 1) as usize, ..*old(self) }),
            c == old(self).source@[old(self).current as int],
    {
        let length = self.source.len();
        let c = self.source[self.current];
        self.current += 1;
        c
    }

    /// The next character, or `'\0'` at the end.
    fn peek(&self) -> (c: char)
        ensures
            c == if self.current < self.source@.len() {
                self.source@[self.current as int]
            } else {
                '\0'
            },
    {
        if self.is_at_end() {
            '\0'
        } else {
            self.source[self.current]
        }
    }

    /// The character after the next, or `'\0'` where there is none.
    fn peek_next(&self) -> (c: char)
        ensures
            c == if self.current + 1 < self.source@.len() {
                self.source@[self.current + 1]
            } else {
                '\0'
            },
    {
        if self.current >= self.source.len() || self.current + 1 >= self.source.len() {
            '\0'
        } else {
            self.source[self.current + 1]
        }
    }

    /// Reads the next character if it is the expected one.
    fn match_char(&mut self, expected: char) -> (matched: bool)
        requires
            expected != '\0',
        ensures
            matched == holds(old(self).source@, old(self).current as int, expected),
            *final(self) == if matched {
                Scanner { current: (old(self).current + 1) as usize, ..*old(self) }
            } else {
                *old(self)
            },
    {
        let length = self.source.len();
        if self.current >= length || self.peek() != expected {
            return false;
        }
        self.current += 1;
        true
    }

    fn add_token(&mut self, token_type: TokenType)
        requires
            old(self).start <= old(self).current <= old(self).source@.len(),
            token_type != TokenType::String,
        ensures
            final(self).tokens@.len() == old(self).tokens@.len() + 1,
            final(self).tokens@.drop_last() == old(self).tokens@,
            spells(
                final(self).tokens@.last(),
                Lexeme {
                    kind: token_type,
                    start: old(self).start as int,
                    end: old(self).current as int,
                    line: old(self).line as int,
                },
                old(self).source@,
            ),
            *final(self) == (Scanner { tokens: final(self).tokens, ..*old(self) }),
    {
        self.add_token_with_literal(token_type, None);
    }

    fn add_token_with_literal(&mut self, token_type: TokenType, literal: Option<Literal>)
        requires
            old(self).start <= old(self).current <= old(self).source@.len(),
        ensures
            final(self).tokens@.len() == old(self).tokens@.len() + 1,
            final(self).tokens@.drop_last() == old(self).tokens@,
            final(self).tokens@.last().token_type == token_type,
            final(self).tokens@.last().lexeme@ == old(self).source@.subrange(
                old(self).start as int,
                old(self).current as int,
            ),
            final(self).tokens@.last().literal == literal,
            final(self).tokens@.last().line == old(self).line,
            *final(self) == (Scanner { tokens: final(self).tokens, ..*old(self) }),
    {
        let text = text_between(&self.source, self.start, self.current);
        self.tokens.push(Token::new(token_type, text, literal, self.line));
        assert(self.tokens@.drop_last() =~= old(self).tokens@);
    }

    fn error(&mut self, line: u32, message: &str)
        ensures
            final(self).errors@.len() == old(self).errors@.len() + 1,
            final(self).errors@.drop_last() == old(self).errors@,
            reports(final(self).errors@.last(), Fault { line: line as int, message: message@ }),
            *final(self) == (Scanner { errors: final(self).errors, ..*old(self) }),
    {
        self.errors.push(LoxError::scan_error(line, String::from_str(message)));
        assert(self.errors@.drop_last() =~= old(self).errors@);
    }

    /// One step: reads one token, one stretch of blank space, one comment,
    /// or one character that starts none of these.
    fn scan_token(&mut self)
        requires
            old(self).wf(),
            old(self).start == old(self).current,
            old(self).current < old(self).source@.len(),
        ensures
            final(self).wf(),
            final(self).stepped(
                *old(self),
                step(old(self).source(), old(self).position(), old(self).line()),
            ),
    {
        let ghost source = self.source@;
        let ghost at = self.current as int;
        proof {
            reveal(step);
            lemma_step(source, at, self.line as int);
        }
        let c = self.advance();
        if c == '(' {
            self.add_token(TokenType::LeftParen);
        } else if c == ')' {
            self.add_token(TokenType::RightParen);
        } else if c == '{' {
            self.add_token(TokenType::LeftBrace);
        } else if c == '}' {
            self.add_token(TokenType::RightBrace);
        } else if c == ',' {
            self.add_token(TokenType::Comma);
        } else if c == '.' {
            self.add_token(TokenType::Dot);
        } else if c == '-' {
            self.add_token(TokenType::Minus);
        } else if c == '+' {
            self.add_token(TokenType::Plus);
        } else if c == ';' {
            self.add_token(TokenType::Semicolon);
        } else if c == '*' {
            self.add_token(TokenType::Star);
        } else if c == '!' {
            if self.match_char('=') {
                self.add_token(TokenType::BangEqual);
            } else {
                self.add_token(TokenType::Bang);
            }
        } else if c == '=' {
            if self.match_char('=') {
                self.add_token(TokenType::EqualEqual);
            } else {
                self.add_token(TokenType::Equal);
            }
        } else if c == '<' {
            if self.match_char('=') {
                self.add_token(TokenType::LessEqual);
            } else {
                self.add_token(TokenType::Less);
            }
        } else if c == '>' {
            if self.match_char('=') {
                self.add_token(TokenType::GreaterEqual);
            } else {
                self.add_token(TokenType::Greater);
            }
        } else if c == '/' {
            if self.match_char('/') {
                self.read_run(Run::Line);
            } else if self.match_char('*') {
                self.block_comment();
            } else {
                self.add_token(TokenType::Slash);
            }
        } else if c == ' ' || c == '\r' || c == '\t' {
        } else if c == '\n' {
            self.line += 1;
        } else if c == '"' {
            self.string();
        } else if Self::is_digit(c) {
            self.number();
        } else if Self::is_alpha(c) {
            self.identifier();
        } else {
            self.error(self.line, "Unexpected character.");
        }
    }

    /// Reads on to the end of a run.
    fn read_run(&mut self, run: Run)
        requires
            old(self).current <= old(self).source@.len(),
            !(run is Quoted),
        ensures
            final(self).current == run_end(old(self).source@, old(self).current as int, run),
            *final(self) == (Scanner { current: final(self).current, ..*old(self) }),
    {
        proof {
            lemma_run_end(self.source@, self.current as int, run);
        }
        while self.current < self.source.len() && Self::belongs(&run, self.source[self.current])
            invariant
                old(self).current <= self.current <= self.source@.len(),
                run_end(self.source@, self.current as int, run) == run_end(
                    old(self).source@,
                    old(self).current as int,
                    run,
                ),
                *self == (Scanner { current: self.current, ..*old(self) }),
            decreases self.source@.len() - self.current,
        {
            self.current += 1;
        }
    }

    fn belongs(run: &Run, c: char) -> (inside: bool)
        ensures
            inside == crate::lexical::within(*run, c),
    {
        match run {
            Run::Digits => Self::is_digit(c),
            Run::Word => Self::is_alphanumeric(c),
            Run::Line => c != '\n',
            Run::Quoted => c != '"',
        }
    }

    /// A block comment, behind its opener. Comments nest: the lines of the
    /// openers that are still unmatched are kept, the outermost first.
    fn block_comment(&mut self)
        requires
            old(self).wf(),
            old(self).start + 2 == old(self).current,
        ensures
            final(self).wf(),
            *final(self) == (Scanner {
                current: final(self).current,
                line: final(self).line,
                errors: final(self).errors,
                ..*old(self)
            }),
            ({
                let stop = comment(old(self).source@, old(self).current as int, 1, old(self).line as int);
                &&& final(self).current == stop.end
                &&& final(self).line == stop.line
                &&& if stop.depth == 0 {
                    final(self).errors@ == old(self).errors@
                } else {
                    &&& final(self).errors@.len() == old(self).errors@.len() + 1
                    &&& final(self).errors@.drop_last() == old(self).errors@
                    &&& reports(
                        final(self).errors@.last(),
                        Fault { line: old(self).line as int, message: unterminated_comment() },
                    )
                }
            }),
    {
        let mut openers: Vec<u32> = Vec::new();
        openers.push(self.line);
        let ghost stop = comment(self.source@, self.current as int, 1, self.line as int);
        while openers.len() != 0 && !self.is_at_end()
            invariant
                self.wf(),
                *self == (Scanner { current: self.current, line: self.line, ..*old(self) }),
                openers@.len() > 0 ==> openers@[0] == old(self).line,
                comment(self.source@, self.current as int, openers@.len(), self.line as int) == stop,
            decreases self.source@.len() - self.current,
        {
            let c = self.peek();
            let next = self.peek_next();
            if c == '*' && next == '/' {
                openers.pop();
                self.current += 1;
            } else if c == '/' && next == '*' {
                openers.push(self.line);
                self.current += 1;
            } else if c == '\n' {
                self.line += 1;
            }
            self.current += 1;
        }
        if openers.len() != 0 {
            self.error(
                openers[0],
                "Don't forget to close a multiline comment with closing sign: '*/'.",
            );
        }
    }

    /// A string literal, behind its opening quote.
    fn string(&mut self)
        requires
            old(self).wf(),
            old(self).start + 1 == old(self).current,
        ensures
            final(self).wf(),
            final(self).stepped(
                Scanner { current: old(self).start, ..*old(self) },
                ({
                    let one = old(self).current as int;
                    let quote = run_end(old(self).source@, one, Run::Quoted);
                    let last = old(self).line + newlines(old(self).source@, one, quote);
                    if quote < old(self).source@.len() {
                        Step { item: Item::Token(TokenType::String), end: quote + 1, line: last }
                    } else {
                        Step {
                            item: Item::Error { line: last, message: "Unterminated string."@ },
                            end: quote,
                            line: last,
                        }
                    }
                }),
            ),
    {
        let ghost one = self.current as int;
        proof {
            lemma_run_end(self.source@, one, Run::Quoted);
        }
        while self.current < self.source.len() && self.source[self.current] != '"'
            invariant
                self.wf(),
                one <= self.current,
                *self == (Scanner { current: self.current, line: self.line, ..*old(self) }),
                run_end(self.source@, self.current as int, Run::Quoted) == run_end(
                    self.source@,
                    one,
                    Run::Quoted,
                ),
                self.line == old(self).line + newlines(self.source@, one, self.current as int),
            decreases self.source@.len() - self.current,
        {
            if self.source[self.current] == '\n' {
                self.line += 1;
            }
            self.current += 1;
        }
        if self.is_at_end() {
            self.error(self.line, "Unterminated string.");
            return ;
        }
        self.current += 1;
        let value = text_between(&self.source, self.start + 1, self.current - 1);
        self.add_token_with_literal(TokenType::String, Some(Literal::String(value)));
    }

    /// A number, behind its first digit.
    fn number(&mut self)
        requires
            old(self).wf(),
            old(self).start + 1 == old(self).current,
            is_digit(old(self).source@[old(self).start as int]),
        ensures
            final(self).wf(),
            final(self).stepped(
                Scanner { current: old(self).start, ..*old(self) },
                Step {
                    item: Item::Token(TokenType::Number),
                    end: number_end(old(self).source@, old(self).start as int),
                    line: old(self).line as int,
                },
            ),
    {
        proof {
            lemma_run_end(self.source@, self.current as int, Run::Digits);
        }
        self.read_run(Run::Digits);
        if self.peek() == '.' && Self::is_digit(self.peek_next()) {
            proof {
                lemma_run_end(self.source@, self.current + 1, Run::Digits);
            }
            self.current += 1;
            self.read_run(Run::Digits);
        }
        self.add_token(TokenType::Number);
    }

    /// A name or a reserved word, behind its first character.
    fn identifier(&mut self)
        requires
            old(self).wf(),
            old(self).start + 1 == old(self).current,
            is_alpha(old(self).source@[old(self).start as int]),
        ensures
            final(self).wf(),
            final(self).stepped(
                Scanner { current: old(self).start, ..*old(self) },
                ({
                    let at = old(self).start as int;
                    let end = run_end(old(self).source@, at, Run::Word);
                    Step {
                        item: Item::Token(word_kind(old(self).source@.subrange(at, end))),
                        end,
                        line: old(self).line as int,
                    }
                }),
            ),
    {
        proof {
            lemma_run_end(self.source@, self.current as int, Run::Word);
        }
        self.read_run(Run::Word);
        let token_type = match Self::reserved(&self.source, self.start, self.current) {
            Some(kind) => kind,
            None => TokenType::Identifier,
        };
        self.add_token(token_type);
    }

    /// Looks `source[from..to]` up among the reserved words.
    fn reserved(source: &Vec<char>, from: usize, to: usize) -> (kind: Option<TokenType>)
        requires
            from <= to <= source@.len(),
        ensures
            kind == keyword(source@.subrange(from as int, to as int)),
            kind != Some(TokenType::String),
    {
        if spells_word(source, from, to, "and") {
            Some(TokenType::And)
        } else if spells_word(source, from, to, "class") {
            Some(TokenType::Class)
        } else if spells_word(source, from, to, "else") {
            Some(TokenType::Else)
        } else if spells_word(source, from, to, "false") {
            Some(TokenType::False)
        } else if spells_word(source, from, to, "for") {
            Some(TokenType::For)
        } else if spells_word(source, from, to, "fun") {
            Some(TokenType::Fun)
        } else if spells_word(source, from, to, "if") {
            Some(TokenType::If)
        } else if spells_word(source, from, to, "nil") {
            Some(TokenType::Nil)
        } else if spells_word(source, from, to, "or") {
            Some(TokenType::Or)
        } else if spells_word(source, from, to, "print") {
            Some(TokenType::Print)
        } else if spells_word(source, from, to, "return") {
            Some(TokenType::Return)
        } else if spells_word(source, from, to, "super") {
            Some(TokenType::Super)
        } else if spells_word(source, from, to, "this") {
            Some(TokenType::This)
        } else if spells_word(source, from, to, "true") {
            Some(TokenType::True)
        } else if spells_word(source, from, to, "var") {
            Some(TokenType::Var)
        } else if spells_word(source, from, to, "while") {
            Some(TokenType::While)
        } else {
            None
        }
    }

    fn is_digit(c: char) -> (digit: bool)
        ensures
            digit == is_digit(c),
    {
        c >= '0' && c <= '9'
    }

    fn is_alpha(c: char) -> (alpha: bool)
        ensures
            alpha == is_alpha(c),
    {
        (c >= 'a' && c <= 'z') || (c >= 'A' && c <= 'Z') || c == '_'
    }

    fn is_alphanumeric(c: char) -> (either: bool)
        ensures
            either == is_alphanumeric(c),
    {
        Self::is_alpha(c) || Self::is_digit(c)
    }
}

} // verus!
